//! The position mapper: pulls the 1-based line and column numbers out of a
//! diagnostic header line and converts them to the 0-based coordinates editor
//! clients expect.
//!
//! A header looks like `Error: "Top.bsv", line 98, column 3: (P0005)`. The
//! line number stands after `", line "` up to the next comma, the column
//! number after `", column "` up to the next colon. A number that is absent,
//! malformed or zero yields `None`, so the caller can fall back to a
//! documented default rather than misreport a position. (Zero yields `None`
//! because the numbers are documented 1-based: there is no 0-based coordinate
//! for it.)

use crate::text::all_digits;
use crate::text::chars_vec;
use crate::text::contains_at;
use crate::text::digits_val;
use crate::text::find_first;
use crate::text::is_digit_char;
use crate::text::lemma_digits_val_nonneg;
use crate::text::lemma_find_first_props;
use crate::text::lemma_find_first_some;
use crate::text::parse_input;
use crate::text::parse_u32_chars;
use crate::text::parse_u32_spec;
use crate::text::split_once_spec;
use vstd::prelude::*;

verus! {

/// The marker before the 1-based line number in a diagnostic header.
pub open spec fn line_marker() -> Seq<char> {
    seq![',', ' ', 'l', 'i', 'n', 'e', ' ']
}

/// The marker before the 1-based column number in a diagnostic header.
pub open spec fn column_marker() -> Seq<char> {
    seq![',', ' ', 'c', 'o', 'l', 'u', 'm', 'n', ' ']
}

/// The characters of `line_marker`, as a vector.
fn line_marker_chars() -> (r: Vec<char>)
    ensures
        r@ == line_marker(),
{
    let mut r: Vec<char> = Vec::new();
    r.push(',');
    r.push(' ');
    r.push('l');
    r.push('i');
    r.push('n');
    r.push('e');
    r.push(' ');
    proof {
        assert(r@ =~= line_marker());
    }
    r
}

/// The characters of `column_marker`, as a vector.
fn column_marker_chars() -> (r: Vec<char>)
    ensures
        r@ == column_marker(),
{
    let mut r: Vec<char> = Vec::new();
    r.push(',');
    r.push(' ');
    r.push('c');
    r.push('o');
    r.push('l');
    r.push('u');
    r.push('m');
    r.push('n');
    r.push(' ');
    proof {
        assert(r@ =~= column_marker());
    }
    r
}

/// The 0-based number a header carries after `marker`, up to the next `delim`:
/// the text between the first occurrence of each, parsed as a 1-based decimal
/// number and lowered by one. Absent, malformed or zero: `None`.
pub open spec fn field_of(header: Seq<char>, marker: Seq<char>, delim: char) -> Option<u32> {
    match split_once_spec(header, marker) {
        None => None,
        Some(p) => match split_once_spec(p.1, seq![delim]) {
            None => None,
            Some(q) => match parse_u32_spec(q.0) {
                None => None,
                Some(v) => if v >= 1 {
                    Some((v - 1) as u32)
                } else {
                    None
                },
            },
        },
    }
}

/// The 0-based line number of a diagnostic header, if it carries one.
pub open spec fn line_of(header: Seq<char>) -> Option<u32> {
    field_of(header, line_marker(), ',')
}

/// The 0-based column number of a diagnostic header, if it carries one.
pub open spec fn column_of(header: Seq<char>) -> Option<u32> {
    field_of(header, column_marker(), ':')
}

/// Find `marker` in `header`, take the text from there to the next `delim`,
/// and parse it as a 1-based number, lowered to 0-based.
fn get_field(header: &[char], marker: &[char], delim: char) -> (r: Option<u32>)
    ensures
        r == field_of(header@, marker@, delim),
{
    let n = header.len();
    let fm = find_first(header, marker);
    proof {
        lemma_find_first_props(header@, marker@);
    }
    match fm {
        None => None,
        Some(i) => {
            let start = i + marker.len();
            let rest = vstd::slice::slice_subrange(header, start, n);
            let mut dv: Vec<char> = Vec::new();
            dv.push(delim);
            proof {
                assert(dv@ =~= seq![delim]);
            }
            let fd = find_first(rest, dv.as_slice());
            proof {
                lemma_find_first_props(rest@, dv@);
            }
            match fd {
                None => None,
                Some(j) => {
                    let numstr = vstd::slice::slice_subrange(rest, 0, j);
                    match parse_u32_chars(numstr) {
                        None => None,
                        Some(v) => if v >= 1 {
                            Some(v - 1)
                        } else {
                            None
                        },
                    }
                },
            }
        },
    }
}

/// The 0-based line number of a header given as characters.
pub fn line_nr_of_chars(header: &[char]) -> (r: Option<u32>)
    ensures
        r == line_of(header@),
{
    let marker = line_marker_chars();
    get_field(header, marker.as_slice(), ',')
}

/// The 0-based column number of a header given as characters.
pub fn column_nr_of_chars(header: &[char]) -> (r: Option<u32>)
    ensures
        r == column_of(header@),
{
    let marker = column_marker_chars();
    get_field(header, marker.as_slice(), ':')
}

/// Given a diagnostic header line, return the 0-based line number.
///     Example header: Error: "Top.bsv", line 98, column 3: (P0005)
pub fn get_line_nr(header: &str) -> (r: Option<u32>)
    ensures
        r == line_of(header@),
{
    let chars = chars_vec(header);
    line_nr_of_chars(chars.as_slice())
}

/// Given a diagnostic header line, return the 0-based column number.
///     Example header: Error: "Top.bsv", line 98, column 3: (P0005)
pub fn get_column_nr(header: &str) -> (r: Option<u32>)
    ensures
        r == column_of(header@),
{
    let chars = chars_vec(header);
    column_nr_of_chars(chars.as_slice())
}

/// The conversion law of the mapper: in a header of the shape
/// `<pre><marker><digits><delim><post>` whose marker first occurs after
/// `pre`, the field comes out as the value of the digits less one — the
/// documented 1-based to 0-based rule, for every 1-based value.
pub proof fn lemma_field_conversion(
    pre: Seq<char>,
    marker: Seq<char>,
    digits: Seq<char>,
    delim: char,
    post: Seq<char>,
)
    requires
        digits.len() > 0,
        all_digits(digits),
        1 <= digits_val(digits) <= u32::MAX,
        !is_digit_char(delim),
        forall|j: int|
            0 <= j < pre.len() ==> !contains_at(
                pre + marker + digits + seq![delim] + post,
                marker,
                j,
            ),
    ensures
        field_of(pre + marker + digits + seq![delim] + post, marker, delim) == Some(
            (digits_val(digits) - 1) as u32,
        ),
{
    let h = pre + marker + digits + seq![delim] + post;
    let m = pre.len() as int;
    assert(h.subrange(m, m + marker.len()) =~= marker);
    assert(contains_at(h, marker, m));
    lemma_find_first_some(h, marker, m);
    let rest = h.subrange(m + marker.len(), h.len() as int);
    assert(rest =~= digits + seq![delim] + post);
    let d = digits.len() as int;
    assert(rest.subrange(d, d + 1) =~= seq![delim]);
    assert(contains_at(rest, seq![delim], d));
    assert forall|j: int| 0 <= j < d implies !contains_at(rest, seq![delim], j) by {
        if contains_at(rest, seq![delim], j) {
            assert(rest.subrange(j, j + 1)[0] == rest[j]);
            assert(rest[j] == digits[j]);
            assert(is_digit_char(delim));
        }
    }
    lemma_find_first_some(rest, seq![delim], d);
    let numstr = rest.subrange(0, d);
    assert(numstr =~= digits);
    assert(!is_digit_char('+')) by {
        assert('+' < '0');
    }
    assert(digits[0] != '+');
    assert(parse_input(digits) == digits);
    lemma_digits_val_nonneg(digits);
    assert(parse_u32_spec(digits) == Some(digits_val(digits) as u32));
}

/// The 1-based to 0-based rule for line numbers: `", line <n>,"` in a header
/// whose line marker first occurs there yields line `n - 1`.
pub proof fn lemma_line_conversion(pre: Seq<char>, digits: Seq<char>, post: Seq<char>)
    requires
        digits.len() > 0,
        all_digits(digits),
        1 <= digits_val(digits) <= u32::MAX,
        forall|j: int|
            0 <= j < pre.len() ==> !contains_at(
                pre + line_marker() + digits + seq![','] + post,
                line_marker(),
                j,
            ),
    ensures
        line_of(pre + line_marker() + digits + seq![','] + post) == Some(
            (digits_val(digits) - 1) as u32,
        ),
{
    assert(!is_digit_char(',')) by {
        assert(',' < '0');
    }
    lemma_field_conversion(pre, line_marker(), digits, ',', post);
}

/// The 1-based to 0-based rule for column numbers: `", column <n>:"` in a
/// header whose column marker first occurs there yields column `n - 1`.
pub proof fn lemma_column_conversion(pre: Seq<char>, digits: Seq<char>, post: Seq<char>)
    requires
        digits.len() > 0,
        all_digits(digits),
        1 <= digits_val(digits) <= u32::MAX,
        forall|j: int|
            0 <= j < pre.len() ==> !contains_at(
                pre + column_marker() + digits + seq![':'] + post,
                column_marker(),
                j,
            ),
    ensures
        column_of(pre + column_marker() + digits + seq![':'] + post) == Some(
            (digits_val(digits) - 1) as u32,
        ),
{
    assert(!is_digit_char(':')) by {
        assert(':' > '9');
    }
    lemma_field_conversion(pre, column_marker(), digits, ':', post);
}

} // verus!
