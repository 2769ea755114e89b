//! Verified utilities over character sequences: substring search, whitespace
//! trimming, line splitting, and decimal parsing. These are the primitives the
//! diagnostic extractor and the position mapper are built from.

use vstd::prelude::*;

verus! {

use vstd::string::StrSliceExecFns;

/// `needle` occurs in `hay` starting at index `i`.
pub open spec fn contains_at(hay: Seq<char>, needle: Seq<char>, i: int) -> bool {
    &&& 0 <= i
    &&& i + needle.len() <= hay.len()
    &&& hay.subrange(i, i + needle.len()) == needle
}

/// `needle` occurs somewhere in `hay`.
pub open spec fn contains_seq(hay: Seq<char>, needle: Seq<char>) -> bool {
    exists|i: int| contains_at(hay, needle, i)
}

/// Index of the first occurrence of `needle` in `hay`, if there is one.
pub open spec fn find_first_spec(hay: Seq<char>, needle: Seq<char>) -> Option<int>
    decreases hay.len(),
{
    if needle.len() <= hay.len() && hay.subrange(0, needle.len() as int) == needle {
        Some(0int)
    } else if hay.len() == 0 {
        None
    } else {
        match find_first_spec(hay.drop_first(), needle) {
            Some(i) => Some(i + 1),
            None => None,
        }
    }
}

/// An occurrence at `i + 1` of the whole is an occurrence at `i` of the tail.
proof fn lemma_contains_at_shift(hay: Seq<char>, needle: Seq<char>, i: int)
    requires
        hay.len() > 0,
        0 <= i,
    ensures
        contains_at(hay, needle, i + 1) <==> contains_at(hay.drop_first(), needle, i),
{
    if i + 1 + needle.len() <= hay.len() {
        assert(hay.subrange(i + 1, i + 1 + needle.len()) =~= hay.drop_first().subrange(
            i,
            i + needle.len(),
        ));
    }
}

/// A first occurrence is what `find_first_spec` returns.
pub proof fn lemma_find_first_some(hay: Seq<char>, needle: Seq<char>, i: int)
    requires
        contains_at(hay, needle, i),
        forall|j: int| 0 <= j < i ==> !contains_at(hay, needle, j),
    ensures
        find_first_spec(hay, needle) == Some(i),
    decreases hay.len(),
{
    if i == 0 {
        assert(hay.subrange(0, needle.len() as int) == needle);
    } else {
        assert(!contains_at(hay, needle, 0));
        assert(hay.len() > 0);
        lemma_contains_at_shift(hay, needle, i - 1);
        assert forall|j: int| 0 <= j < i - 1 implies !contains_at(
            hay.drop_first(),
            needle,
            j,
        ) by {
            lemma_contains_at_shift(hay, needle, j);
            assert(!contains_at(hay, needle, j + 1));
        }
        lemma_find_first_some(hay.drop_first(), needle, i - 1);
    }
}

/// Where nothing occurs, `find_first_spec` finds nothing.
pub proof fn lemma_find_first_none(hay: Seq<char>, needle: Seq<char>)
    requires
        forall|j: int| !contains_at(hay, needle, j),
    ensures
        find_first_spec(hay, needle) is None,
    decreases hay.len(),
{
    assert(!contains_at(hay, needle, 0));
    if hay.len() > 0 {
        assert forall|j: int| !contains_at(hay.drop_first(), needle, j) by {
            if j >= 0 {
                lemma_contains_at_shift(hay, needle, j);
                assert(!contains_at(hay, needle, j + 1));
            }
        }
        lemma_find_first_none(hay.drop_first(), needle);
    }
}

/// What `find_first_spec` returns is a first occurrence; `None` means absence.
pub proof fn lemma_find_first_props(hay: Seq<char>, needle: Seq<char>)
    ensures
        match find_first_spec(hay, needle) {
            Some(i) => contains_at(hay, needle, i) && (forall|j: int|
                0 <= j < i ==> !contains_at(hay, needle, j)),
            None => !contains_seq(hay, needle),
        },
    decreases hay.len(),
{
    if needle.len() <= hay.len() && hay.subrange(0, needle.len() as int) == needle {
        assert(contains_at(hay, needle, 0));
    } else if hay.len() == 0 {
        assert forall|j: int| !contains_at(hay, needle, j) by {
            if 0 <= j && j + needle.len() <= hay.len() {
                assert(hay.subrange(j, j + needle.len()) =~= hay.subrange(
                    0,
                    needle.len() as int,
                ));
            }
        }
    } else {
        lemma_find_first_props(hay.drop_first(), needle);
        match find_first_spec(hay.drop_first(), needle) {
            Some(i) => {
                lemma_contains_at_shift(hay, needle, i);
                assert(contains_at(hay, needle, i + 1));
                assert forall|j: int| 0 <= j < i + 1 implies !contains_at(
                    hay,
                    needle,
                    j,
                ) by {
                    if j > 0 {
                        lemma_contains_at_shift(hay, needle, j - 1);
                    }
                }
            },
            None => {
                assert forall|j: int| !contains_at(hay, needle, j) by {
                    if j > 0 {
                        lemma_contains_at_shift(hay, needle, j - 1);
                        assert(!contains_at(hay.drop_first(), needle, j - 1));
                    }
                }
            },
        }
    }
}

/// Whether `needle` occurs in `hay` exactly at index `i`.
fn match_at(hay: &[char], needle: &[char], i: usize) -> (b: bool)
    requires
        i + needle@.len() <= hay@.len(),
    ensures
        b == contains_at(hay@, needle@, i as int),
{
    let hay_len = hay.len();
    let mut k: usize = 0;
    while k < needle.len()
        invariant
            i + needle@.len() <= hay@.len(),
            hay_len == hay@.len(),
            k <= needle@.len(),
            forall|m: int| 0 <= m < k ==> hay@[i + m] == needle@[m],
        decreases needle@.len() - k,
    {
        if hay[i + k] != needle[k] {
            proof {
                if hay@.subrange(i as int, i + needle@.len()) == needle@ {
                    let ghost sub = hay@.subrange(i as int, i + needle@.len());
                    assert(sub[k as int] == needle@[k as int]);
                }
            }
            return false;
        }
        k += 1;
    }
    proof {
        assert(hay@.subrange(i as int, i + needle@.len()) =~= needle@);
    }
    true
}

/// Index of the first occurrence of `needle` in `hay`, if there is one.
pub fn find_first(hay: &[char], needle: &[char]) -> (r: Option<usize>)
    ensures
        match r {
            Some(i) => find_first_spec(hay@, needle@) == Some(i as int),
            None => find_first_spec(hay@, needle@) is None,
        },
{
    if needle.len() == 0 {
        proof {
            assert(hay@.subrange(0, 0) =~= needle@);
            assert(contains_at(hay@, needle@, 0));
            lemma_find_first_some(hay@, needle@, 0);
        }
        return Some(0);
    }
    if needle.len() > hay.len() {
        proof {
            lemma_find_first_none(hay@, needle@);
        }
        return None;
    }
    let limit = hay.len() - needle.len();
    let mut i: usize = 0;
    while i <= limit
        invariant
            needle@.len() >= 1,
            needle@.len() <= hay@.len(),
            hay@.len() <= usize::MAX,
            limit == hay@.len() - needle@.len(),
            i <= limit + 1,
            forall|j: int| 0 <= j < i ==> !contains_at(hay@, needle@, j),
        decreases limit + 1 - i,
    {
        if match_at(hay, needle, i) {
            proof {
                lemma_find_first_some(hay@, needle@, i as int);
            }
            return Some(i);
        }
        i += 1;
    }
    proof {
        assert forall|j: int| !contains_at(hay@, needle@, j) by {
            if 0 <= j && j + needle@.len() <= hay@.len() {
                assert(j <= limit);
            }
        }
        lemma_find_first_none(hay@, needle@);
    }
    None
}

/// Whether `needle` occurs anywhere in `hay`.
pub fn contains_slice(hay: &[char], needle: &[char]) -> (b: bool)
    ensures
        b == contains_seq(hay@, needle@),
{
    let r = find_first(hay, needle);
    proof {
        lemma_find_first_props(hay@, needle@);
    }
    r.is_some()
}

/// The characters the Unicode `White_Space` property covers: what `trim_start`
/// removes from the front of a message body line.
pub open spec fn is_space_char(c: char) -> bool {
    ||| c == ' '
    ||| c == '\t'
    ||| c == '\n'
    ||| c == '\u{b}'
    ||| c == '\u{c}'
    ||| c == '\r'
    ||| c == '\u{85}'
    ||| c == '\u{a0}'
    ||| c == '\u{1680}'
    ||| ('\u{2000}' <= c && c <= '\u{200a}')
    ||| c == '\u{2028}'
    ||| c == '\u{2029}'
    ||| c == '\u{202f}'
    ||| c == '\u{205f}'
    ||| c == '\u{3000}'
}

/// Whether `c` carries the Unicode `White_Space` property.
pub fn is_space(c: char) -> (b: bool)
    ensures
        b == is_space_char(c),
{
    c == ' ' || c == '\t' || c == '\n' || c == '\u{b}' || c == '\u{c}' || c == '\r' || c
        == '\u{85}' || c == '\u{a0}' || c == '\u{1680}' || ('\u{2000}' <= c && c <= '\u{200a}')
        || c == '\u{2028}' || c == '\u{2029}' || c == '\u{202f}' || c == '\u{205f}' || c
        == '\u{3000}'
}

/// `s` with its leading whitespace removed.
pub open spec fn trim_start_spec(s: Seq<char>) -> Seq<char>
    decreases s.len(),
{
    if s.len() > 0 && is_space_char(s[0]) {
        trim_start_spec(s.drop_first())
    } else {
        s
    }
}

/// Index of the first non-whitespace character of `line` (its length if all of
/// it is whitespace): the rest of the line is the trimmed line.
pub fn trim_start_index(line: &[char]) -> (i: usize)
    ensures
        i <= line@.len(),
        line@.subrange(i as int, line@.len() as int) == trim_start_spec(line@),
{
    let n = line.len();
    let mut i: usize = 0;
    proof {
        assert(line@.subrange(0, n as int) =~= line@);
    }
    while i < n && is_space(line[i])
        invariant
            n == line@.len(),
            i <= n,
            trim_start_spec(line@) == trim_start_spec(line@.subrange(i as int, n as int)),
        decreases n - i,
    {
        proof {
            let tail = line@.subrange(i as int, n as int);
            assert(tail.drop_first() =~= line@.subrange(i + 1, n as int));
        }
        i += 1;
    }
    proof {
        let tail = line@.subrange(i as int, n as int);
        if tail.len() > 0 {
            assert(tail[0] == line@[i as int]);
        }
        assert(trim_start_spec(tail) == tail);
    }
    i
}

/// A decimal digit.
pub open spec fn is_digit_char(c: char) -> bool {
    '0' <= c && c <= '9'
}

/// The numeric value of a decimal digit.
pub open spec fn digit_val(c: char) -> int {
    c as int - '0' as int
}

/// Every character of `s` is a decimal digit.
pub open spec fn all_digits(s: Seq<char>) -> bool {
    forall|i: int| 0 <= i < s.len() ==> is_digit_char(s[i])
}

/// The value of a string of decimal digits, most significant first.
pub open spec fn digits_val(s: Seq<char>) -> int
    decreases s.len(),
{
    if s.len() == 0 {
        0
    } else {
        digits_val(s.drop_last()) * 10 + digit_val(s.last())
    }
}

/// A digit string has a non-negative value.
pub proof fn lemma_digits_val_nonneg(s: Seq<char>)
    requires
        all_digits(s),
    ensures
        digits_val(s) >= 0,
    decreases s.len(),
{
    if s.len() > 0 {
        assert(all_digits(s.drop_last()));
        lemma_digits_val_nonneg(s.drop_last());
    }
}

/// Extending a digit string can only grow its value.
pub proof fn lemma_digits_val_prefix_le(s: Seq<char>, i: int, j: int)
    requires
        all_digits(s),
        0 <= i <= j <= s.len(),
    ensures
        digits_val(s.subrange(0, i)) <= digits_val(s.subrange(0, j)),
    decreases j - i,
{
    if i < j {
        lemma_digits_val_prefix_le(s, i, j - 1);
        let p = s.subrange(0, j);
        assert(p.drop_last() =~= s.subrange(0, j - 1));
        assert(all_digits(p.drop_last()));
        lemma_digits_val_nonneg(p.drop_last());
    }
}

/// The digit part of a number string: what stands after an optional leading
/// `+` sign.
pub open spec fn parse_input(s: Seq<char>) -> Seq<char> {
    if s.len() > 0 && s[0] == '+' {
        s.drop_first()
    } else {
        s
    }
}

/// What parsing `s` as an unsigned 32-bit decimal number yields: an optional
/// leading `+`, then one or more decimal digits whose value fits. This is the
/// grammar `str::parse::<u32>` accepts.
pub open spec fn parse_u32_spec(s: Seq<char>) -> Option<u32> {
    let ds = parse_input(s);
    if ds.len() > 0 && all_digits(ds) && digits_val(ds) <= u32::MAX {
        Some(digits_val(ds) as u32)
    } else {
        None
    }
}

/// Parse `s` as an unsigned 32-bit decimal number.
pub fn parse_u32_chars(s: &[char]) -> (r: Option<u32>)
    ensures
        r == parse_u32_spec(s@),
{
    let n = s.len();
    let start: usize = if n > 0 && s[0] == '+' {
        1
    } else {
        0
    };
    let ghost ds = parse_input(s@);
    proof {
        assert(ds =~= s@.subrange(start as int, n as int));
    }
    if n == start {
        return None;
    }
    let mut i: usize = start;
    let mut acc: u32 = 0;
    while i < n
        invariant
            n == s@.len(),
            start <= i <= n,
            start < n,
            start <= 1,
            (s@.len() > 0 && s@[0] == '+') ==> start == 1,
            !(s@.len() > 0 && s@[0] == '+') ==> start == 0,
            ds == parse_input(s@),
            ds =~= s@.subrange(start as int, n as int),
            forall|j: int| start <= j < i ==> is_digit_char(s@[j]),
            acc as int == digits_val(s@.subrange(start as int, i as int)),
        decreases n - i,
    {
        let c = s[i];
        if !('0' <= c && c <= '9') {
            proof {
                assert(ds[i - start] == s@[i as int]);
                assert(!is_digit_char(ds[i - start]));
                assert(!all_digits(ds));
            }
            return None;
        }
        let d: u32 = c as u32 - '0' as u32;
        let wide: u64 = acc as u64 * 10 + d as u64;
        proof {
            let p = s@.subrange(start as int, i + 1);
            assert(p.drop_last() =~= s@.subrange(start as int, i as int));
            assert(p.last() == s@[i as int]);
            assert(digits_val(p) == wide as int);
        }
        if wide > u32::MAX as u64 {
            proof {
                if all_digits(ds) {
                    let k = i + 1 - start;
                    assert(ds.subrange(0, k) =~= s@.subrange(start as int, i + 1));
                    assert(ds.subrange(0, ds.len() as int) =~= ds);
                    lemma_digits_val_prefix_le(ds, k, ds.len() as int);
                    assert(digits_val(ds) > u32::MAX);
                }
            }
            return None;
        }
        acc = wide as u32;
        i += 1;
    }
    proof {
        assert(s@.subrange(start as int, n as int) =~= ds);
        assert(all_digits(ds));
    }
    Some(acc)
}

/// What `str::split_once` yields: the text before and after the first
/// occurrence of `pat`, or nothing when `pat` does not occur.
pub open spec fn split_once_spec(s: Seq<char>, pat: Seq<char>) -> Option<(Seq<char>, Seq<char>)> {
    match find_first_spec(s, pat) {
        Some(i) => Some((s.subrange(0, i), s.subrange(i + pat.len(), s.len() as int))),
        None => None,
    }
}

/// The characters of `s`, one per vector slot.
pub fn chars_vec(s: &str) -> (r: Vec<char>)
    ensures
        r@ == s@,
{
    let n = s.unicode_len();
    let mut r: Vec<char> = Vec::new();
    let mut i: usize = 0;
    while i < n
        invariant
            n == s@.len(),
            i <= n,
            r@ == s@.subrange(0, i as int),
        decreases n - i,
    {
        r.push(s.get_char(i));
        proof {
            assert(r@ =~= s@.subrange(0, i + 1));
        }
        i += 1;
    }
    proof {
        assert(s@.subrange(0, n as int) =~= s@);
    }
    r
}

/// A line's trailing carriage return, stripped when the line ended in `\r\n`.
pub open spec fn strip_cr(s: Seq<char>) -> Seq<char> {
    if s.len() > 0 && s.last() == '\r' {
        s.drop_last()
    } else {
        s
    }
}

/// The lines of `s`: split at each `\n`, a `\r` just before the `\n` stripped,
/// no empty line after a final `\n`. This is the splitting `str::lines`
/// performs.
pub open spec fn lines_spec(s: Seq<char>) -> Seq<Seq<char>>
    decreases s.len(),
    via lines_spec_decreases
{
    if s.len() == 0 {
        Seq::empty()
    } else {
        match find_first_spec(s, seq!['\n']) {
            Some(i) => seq![strip_cr(s.subrange(0, i))] + lines_spec(
                s.subrange(i + 1, s.len() as int),
            ),
            None => seq![s],
        }
    }
}

#[via_fn]
proof fn lines_spec_decreases(s: Seq<char>) {
    if s.len() > 0 {
        lemma_find_first_props(s, seq!['\n']);
    }
}

/// The lines of `s`, each its own vector.
pub fn split_lines(s: &[char]) -> (r: Vec<Vec<char>>)
    ensures
        r.deep_view() == lines_spec(s@),
{
    let n = s.len();
    let mut r: Vec<Vec<char>> = Vec::new();
    let mut start: usize = 0;
    let mut nl: Vec<char> = Vec::new();
    nl.push('\n');
    proof {
        assert(nl@ =~= seq!['\n']);
        assert(s@.subrange(0, n as int) =~= s@);
        assert(r.deep_view() =~~= Seq::<Seq<char>>::empty());
    }
    while start < n
        invariant
            n == s@.len(),
            start <= n,
            nl@ =~= seq!['\n'],
            lines_spec(s@) == r.deep_view() + lines_spec(s@.subrange(start as int, n as int)),
        decreases n - start,
    {
        let ghost prev = r.deep_view();
        let ghost suffix = s@.subrange(start as int, n as int);
        let rest = vstd::slice::slice_subrange(s, start, n);
        match find_first(rest, nl.as_slice()) {
            Some(i) => {
                proof {
                    lemma_find_first_props(rest@, nl@);
                    assert(contains_at(suffix, seq!['\n'], i as int));
                    assert(suffix.subrange(i as int, i + 1)[0] == suffix[i as int]);
                    assert(suffix[i as int] == '\n');
                }
                let end = if i > 0 && rest[i - 1] == '\r' {
                    i - 1
                } else {
                    i
                };
                let line = vstd::slice::slice_to_vec(vstd::slice::slice_subrange(rest, 0, end));
                proof {
                    let head = suffix.subrange(0, i as int);
                    if i > 0 && suffix[i - 1] == '\r' {
                        assert(head.last() == suffix[i - 1]);
                        assert(line@ =~= head.drop_last());
                    } else {
                        if head.len() > 0 {
                            assert(head.last() == suffix[i - 1]);
                        }
                        assert(line@ =~= head);
                    }
                    assert(line@ == strip_cr(head));
                }
                r.push(line);
                proof {
                    assert(r.deep_view() =~~= prev + seq![line@]);
                    assert(s@.subrange(start + i + 1, n as int) =~= suffix.subrange(
                        i + 1,
                        suffix.len() as int,
                    ));
                }
                start = start + i + 1;
            },
            None => {
                let line = vstd::slice::slice_to_vec(rest);
                r.push(line);
                proof {
                    assert(r.deep_view() =~~= prev + seq![suffix]);
                    assert(s@.subrange(n as int, n as int) =~= Seq::<char>::empty());
                }
                start = n;
            },
        }
    }
    proof {
        assert(s@.subrange(start as int, n as int) =~= Seq::<char>::empty());
        assert(r.deep_view() =~= r.deep_view() + lines_spec(Seq::<char>::empty()));
    }
    r
}

} // verus!
