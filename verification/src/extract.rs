//! The diagnostic extractor: one forward pass over the raw text the compiler
//! wrote to its error stream, reclassifying it into discrete diagnostics.
//!
//! A line that carries `"Error: "` or `"Warning: "` is a header: it closes the
//! diagnostic being gathered (if any message text has accumulated) and opens a
//! new one with the severity and position the header announces. Every other
//! line is a continuation: its content, leading whitespace stripped and one
//! separator space appended, joins the pending message. The end of the stream
//! closes the last diagnostic. A pending record with an empty message never
//! flushes, so a header followed at once by another header or by the end of
//! the stream yields no diagnostic, and text before the first header is
//! gathered under the default position (0, 0) and severity `Error`.

use crate::position::column_of;
use crate::position::line_of;
use crate::position::column_nr_of_chars;
use crate::position::line_nr_of_chars;
use crate::text::chars_vec;
use crate::text::contains_seq;
use crate::text::contains_slice;
use crate::text::lines_spec;
use crate::text::split_lines;
use crate::text::trim_start_index;
use crate::text::trim_start_spec;
use vstd::prelude::*;

verus! {

/// How grave a reported issue is: the two classes the compiler's stream marks.
#[derive(Clone, Copy, Debug, PartialEq, Eq, Structural)]
pub enum Severity {
    Error,
    Warning,
}

/// One structured compiler report: a point position (0-based line and column),
/// a severity, and the accumulated message body. The message of an emitted
/// diagnostic is never empty.
pub struct Diagnostic {
    pub line: u32,
    pub col: u32,
    pub severity: Severity,
    pub message: Vec<char>,
}

/// The mathematical shape of a `Diagnostic`.
#[verifier::ext_equal]
pub ghost struct DiagnosticView {
    pub line: u32,
    pub col: u32,
    pub severity: Severity,
    pub message: Seq<char>,
}

impl View for Diagnostic {
    type V = DiagnosticView;

    open spec fn view(&self) -> DiagnosticView {
        DiagnosticView {
            line: self.line,
            col: self.col,
            severity: self.severity,
            message: self.message@,
        }
    }
}

impl DeepView for Diagnostic {
    type V = DiagnosticView;

    open spec fn deep_view(&self) -> DiagnosticView {
        self.view()
    }
}

/// The substring that marks an error header line.
pub open spec fn error_marker() -> Seq<char> {
    seq!['E', 'r', 'r', 'o', 'r', ':', ' ']
}

/// The substring that marks a warning header line.
pub open spec fn warning_marker() -> Seq<char> {
    seq!['W', 'a', 'r', 'n', 'i', 'n', 'g', ':', ' ']
}

/// The characters of `error_marker`, as a vector.
fn error_marker_chars() -> (r: Vec<char>)
    ensures
        r@ == error_marker(),
{
    let mut r: Vec<char> = Vec::new();
    r.push('E');
    r.push('r');
    r.push('r');
    r.push('o');
    r.push('r');
    r.push(':');
    r.push(' ');
    proof {
        assert(r@ =~= error_marker());
    }
    r
}

/// The characters of `warning_marker`, as a vector.
fn warning_marker_chars() -> (r: Vec<char>)
    ensures
        r@ == warning_marker(),
{
    let mut r: Vec<char> = Vec::new();
    r.push('W');
    r.push('a');
    r.push('r');
    r.push('n');
    r.push('i');
    r.push('n');
    r.push('g');
    r.push(':');
    r.push(' ');
    proof {
        assert(r@ =~= warning_marker());
    }
    r
}

/// A line that starts a new diagnostic: it carries one of the two markers.
pub open spec fn header_line(l: Seq<char>) -> bool {
    contains_seq(l, error_marker()) || contains_seq(l, warning_marker())
}

/// The severity a header line announces. A line carrying both markers counts
/// as an error: the error marker wins.
pub open spec fn severity_of(l: Seq<char>) -> Severity {
    if contains_seq(l, error_marker()) {
        Severity::Error
    } else {
        Severity::Warning
    }
}

/// The scanner's pending record: the position and severity of the last header
/// seen, and the message text gathered since.
#[verifier::ext_equal]
pub ghost struct Accum {
    pub line: u32,
    pub col: u32,
    pub severity: Severity,
    pub message: Seq<char>,
}

/// What the scanner holds before any header: position (0, 0), severity
/// `Error`, no message.
pub open spec fn init_accum() -> Accum {
    Accum { line: 0, col: 0, severity: Severity::Error, message: Seq::empty() }
}

/// The pending record right after a header line: the position it announces,
/// each coordinate defaulting to 0 where the header does not carry it in the
/// documented shape; its severity; an empty message.
pub open spec fn header_accum(l: Seq<char>) -> Accum {
    Accum {
        line: match line_of(l) {
            Some(n) => n,
            None => 0,
        },
        col: match column_of(l) {
            Some(n) => n,
            None => 0,
        },
        severity: severity_of(l),
        message: Seq::empty(),
    }
}

/// The diagnostic a pending record closes to — none when its message is
/// empty: an empty accumulator never flushes.
pub open spec fn flush(acc: Accum) -> Seq<DiagnosticView> {
    if acc.message.len() > 0 {
        seq![
            DiagnosticView {
                line: acc.line,
                col: acc.col,
                severity: acc.severity,
                message: acc.message,
            },
        ]
    } else {
        Seq::empty()
    }
}

/// One forward pass over the remaining lines, carrying the pending record: a
/// header line flushes the record and starts a fresh one; any other line
/// appends its content, leading whitespace stripped plus one separator space,
/// to the pending message; the end of the stream flushes what is pending.
pub open spec fn scan(lines: Seq<Seq<char>>, acc: Accum) -> Seq<DiagnosticView>
    decreases lines.len(),
{
    if lines.len() == 0 {
        flush(acc)
    } else if header_line(lines[0]) {
        flush(acc) + scan(lines.drop_first(), header_accum(lines[0]))
    } else {
        scan(
            lines.drop_first(),
            Accum {
                line: acc.line,
                col: acc.col,
                severity: acc.severity,
                message: acc.message + trim_start_spec(lines[0]) + seq![' '],
            },
        )
    }
}

/// The diagnostics of a raw compiler stream, in stream order.
pub open spec fn extract_spec(raw: Seq<char>) -> Seq<DiagnosticView> {
    scan(lines_spec(raw), init_accum())
}

/// Given the raw text a compiler run wrote to its error stream, collect all
/// diagnostics it reports, in stream order.
pub fn collect_diagnostics(raw: &str) -> (r: Vec<Diagnostic>)
    ensures
        r.deep_view() == extract_spec(raw@),
{
    let chars = chars_vec(raw);
    let lines = split_lines(chars.as_slice());
    let err_marker = error_marker_chars();
    let warn_marker = warning_marker_chars();

    let mut r: Vec<Diagnostic> = Vec::new();
    let mut cur_line: u32 = 0;
    let mut cur_col: u32 = 0;
    let mut cur_sev: Severity = Severity::Error;
    let mut msg: Vec<char> = Vec::new();

    let n = lines.len();
    let mut i: usize = 0;
    proof {
        assert(lines.deep_view().skip(0) =~~= lines.deep_view());
        assert(Accum { line: 0u32, col: 0u32, severity: Severity::Error, message: msg@ }
            =~= init_accum());
        assert(r.deep_view() + extract_spec(raw@) =~~= extract_spec(raw@));
    }
    while i < n
        invariant
            n == lines@.len(),
            i <= n,
            err_marker@ == error_marker(),
            warn_marker@ == warning_marker(),
            extract_spec(raw@) == r.deep_view() + scan(
                lines.deep_view().skip(i as int),
                Accum { line: cur_line, col: cur_col, severity: cur_sev, message: msg@ },
            ),
        decreases n - i,
    {
        let ghost suffix = lines.deep_view().skip(i as int);
        let ghost acc0 = Accum {
            line: cur_line,
            col: cur_col,
            severity: cur_sev,
            message: msg@,
        };
        let ghost prev = r.deep_view();
        let line: &Vec<char> = &lines[i];
        proof {
            assert(suffix[0] == lines.deep_view()[i as int]);
            assert(lines.deep_view()[i as int] =~= line@);
            assert(suffix.drop_first() =~~= lines.deep_view().skip(i + 1));
        }
        let is_err = contains_slice(line.as_slice(), err_marker.as_slice());
        let is_hdr = is_err || contains_slice(line.as_slice(), warn_marker.as_slice());
        if is_hdr {
            if msg.len() > 0 {
                let d = Diagnostic {
                    line: cur_line,
                    col: cur_col,
                    severity: cur_sev,
                    message: msg,
                };
                proof {
                    assert(flush(acc0) =~= seq![d.deep_view()]);
                }
                r.push(d);
                proof {
                    assert(r.deep_view() =~~= prev + flush(acc0));
                }
                msg = Vec::new();
            } else {
                proof {
                    assert(flush(acc0) =~= Seq::<DiagnosticView>::empty());
                    assert(r.deep_view() =~~= prev + flush(acc0));
                }
            }
            cur_sev = if is_err {
                Severity::Error
            } else {
                Severity::Warning
            };
            cur_line = match line_nr_of_chars(line.as_slice()) {
                Some(v) => v,
                None => 0,
            };
            cur_col = match column_nr_of_chars(line.as_slice()) {
                Some(v) => v,
                None => 0,
            };
            proof {
                assert(msg@ =~= Seq::<char>::empty());
                assert(Accum { line: cur_line, col: cur_col, severity: cur_sev, message: msg@ }
                    =~= header_accum(line@));
                assert(scan(suffix, acc0) == flush(acc0) + scan(
                    suffix.drop_first(),
                    header_accum(line@),
                ));
            }
        } else {
            let t = trim_start_index(line.as_slice());
            let m = line.len();
            let ghost msg0 = msg@;
            let mut k: usize = t;
            while k < m
                invariant
                    m == line@.len(),
                    t <= k <= m,
                    msg@ == msg0 + line@.subrange(t as int, k as int),
                decreases m - k,
            {
                msg.push(line[k]);
                proof {
                    assert(msg@ =~= msg0 + line@.subrange(t as int, k + 1));
                }
                k += 1;
            }
            msg.push(' ');
            proof {
                assert(msg@ =~= msg0 + trim_start_spec(line@) + seq![' ']);
                assert(Accum { line: cur_line, col: cur_col, severity: cur_sev, message: msg@ }
                    =~= Accum {
                    line: acc0.line,
                    col: acc0.col,
                    severity: acc0.severity,
                    message: acc0.message + trim_start_spec(line@) + seq![' '],
                });
            }
        }
        i += 1;
    }
    if msg.len() > 0 {
        let ghost prev = r.deep_view();
        let ghost acc0 = Accum {
            line: cur_line,
            col: cur_col,
            severity: cur_sev,
            message: msg@,
        };
        let d = Diagnostic { line: cur_line, col: cur_col, severity: cur_sev, message: msg };
        proof {
            assert(lines.deep_view().skip(n as int) =~~= Seq::<Seq<char>>::empty());
            assert(flush(acc0) =~= seq![d.deep_view()]);
        }
        r.push(d);
        proof {
            assert(r.deep_view() =~~= prev + flush(acc0));
        }
    } else {
        proof {
            let acc0 = Accum { line: cur_line, col: cur_col, severity: cur_sev, message: msg@ };
            assert(lines.deep_view().skip(n as int) =~~= Seq::<Seq<char>>::empty());
            assert(flush(acc0) =~= Seq::<DiagnosticView>::empty());
            assert(r.deep_view() + flush(acc0) =~~= r.deep_view());
        }
    }
    r
}

/// Every diagnostic a scan emits has a non-empty message, whatever record is
/// pending: an empty record never flushes.
proof fn lemma_scan_messages_nonempty(lines: Seq<Seq<char>>, acc: Accum)
    ensures
        forall|i: int|
            0 <= i < scan(lines, acc).len() ==> #[trigger] scan(lines, acc)[i].message.len() > 0,
    decreases lines.len(),
{
    if lines.len() == 0 {
    } else if header_line(lines[0]) {
        lemma_scan_messages_nonempty(lines.drop_first(), header_accum(lines[0]));
        let whole = scan(lines, acc);
        let rest = scan(lines.drop_first(), header_accum(lines[0]));
        assert forall|i: int| 0 <= i < whole.len() implies #[trigger] whole[i].message.len()
            > 0 by {
            if i >= flush(acc).len() {
                assert(whole[i] == rest[i - flush(acc).len()]);
            }
        }
    } else {
        let acc2 = Accum {
            line: acc.line,
            col: acc.col,
            severity: acc.severity,
            message: acc.message + trim_start_spec(lines[0]) + seq![' '],
        };
        lemma_scan_messages_nonempty(lines.drop_first(), acc2);
    }
}

/// The data-model invariant of the extractor: every diagnostic it emits has a
/// non-empty message. A diagnostic with an empty message is never constructed,
/// because an empty accumulator never flushes.
pub proof fn lemma_extract_messages_nonempty(raw: Seq<char>)
    ensures
        forall|i: int|
            0 <= i < extract_spec(raw).len() ==> #[trigger] extract_spec(
                raw,
            )[i].message.len() > 0,
{
    lemma_scan_messages_nonempty(lines_spec(raw), init_accum());
}

/// An empty stream yields no diagnostics. Among header-free texts this is the
/// only one that yields none: any header-free line, even a blank one, joins
/// the pending message and is flushed at the end of the stream under the
/// default position and severity.
pub proof fn lemma_extract_empty(raw: Seq<char>)
    requires
        raw.len() == 0,
    ensures
        extract_spec(raw) == Seq::<DiagnosticView>::empty(),
{
    assert(lines_spec(raw) =~= Seq::<Seq<char>>::empty());
    assert(extract_spec(raw) == flush(init_accum()));
}

/// A single header line with no continuation lines yields no diagnostic: the
/// record the header opens still has an empty message when the stream ends,
/// and an empty record never flushes.
pub proof fn lemma_lone_header_yields_nothing(raw: Seq<char>)
    requires
        lines_spec(raw).len() == 1,
        header_line(lines_spec(raw)[0]),
    ensures
        extract_spec(raw) == Seq::<DiagnosticView>::empty(),
{
    let ls = lines_spec(raw);
    let h = ls[0];
    assert(ls.drop_first() =~= Seq::<Seq<char>>::empty());
    assert(scan(ls.drop_first(), header_accum(h)) == flush(header_accum(h)));
    assert(flush(header_accum(h)) =~= Seq::<DiagnosticView>::empty());
    assert(flush(init_accum()) =~= Seq::<DiagnosticView>::empty());
    assert(extract_spec(raw) =~= Seq::<DiagnosticView>::empty());
}

/// Two consecutive headers with nothing between them, followed by one
/// continuation line, yield exactly one diagnostic: the one the second header
/// opens. The first header's record never gathers a message, so it never
/// flushes — the first header produces nothing.
pub proof fn lemma_adjacent_headers(raw: Seq<char>, h1: Seq<char>, h2: Seq<char>, c: Seq<char>)
    requires
        lines_spec(raw) == seq![h1, h2, c],
        header_line(h1),
        header_line(h2),
        !header_line(c),
    ensures
        extract_spec(raw) == seq![
            DiagnosticView {
                line: header_accum(h2).line,
                col: header_accum(h2).col,
                severity: severity_of(h2),
                message: trim_start_spec(c) + seq![' '],
            },
        ],
{
    let ls = lines_spec(raw);
    assert(ls[0] == h1);
    assert(ls.drop_first() =~= seq![h2, c]);
    assert(seq![h2, c].drop_first() =~= seq![c]);
    assert(seq![c].drop_first() =~= Seq::<Seq<char>>::empty());
    let acc1 = header_accum(h1);
    let acc2 = header_accum(h2);
    let acc3 = Accum {
        line: acc2.line,
        col: acc2.col,
        severity: acc2.severity,
        message: acc2.message + trim_start_spec(c) + seq![' '],
    };
    assert(scan(Seq::<Seq<char>>::empty(), acc3) == flush(acc3));
    assert(acc3.message =~= trim_start_spec(c) + seq![' ']);
    assert(acc3.message.len() > 0);
    assert(flush(acc3) =~= seq![
        DiagnosticView {
            line: acc2.line,
            col: acc2.col,
            severity: severity_of(h2),
            message: trim_start_spec(c) + seq![' '],
        },
    ]);
    assert(flush(acc1) =~= Seq::<DiagnosticView>::empty());
    assert(flush(init_accum()) =~= Seq::<DiagnosticView>::empty());
    assert(seq![c][0] == c);
    assert(scan(seq![c], acc2) == scan(Seq::<Seq<char>>::empty(), acc3));
    assert(seq![h2, c][0] == h2);
    assert(scan(seq![h2, c], acc1) == flush(acc1) + scan(seq![c], acc2));
    assert(scan(ls, init_accum()) == flush(init_accum()) + scan(seq![h2, c], acc1));
    assert(extract_spec(raw) =~= flush(acc3));
}

} // verus!
