//! Tests for the diagnostic extractor: one scan over raw compiler output.

use bsv_lang_server::extract::Severity;
use bsv_lang_server::collect_diagnostics;

fn chars(s: &str) -> Vec<char> {
    s.chars().collect()
}

fn text(v: &[char]) -> String {
    v.iter().collect()
}

#[test]
fn empty_input_yields_nothing() {
    let diagnostics = collect_diagnostics("");
    assert_eq!(diagnostics.len(), 0);
}

#[test]
fn error_header_with_one_continuation() {
    let raw = "Error: \"Top.bsv\", line 98, column 3: (P0005)\nblah";
    let diagnostics = collect_diagnostics(raw);
    assert_eq!(diagnostics.len(), 1);
    assert_eq!(diagnostics[0].severity, Severity::Error);
    assert_eq!(diagnostics[0].line, 97);
    assert_eq!(diagnostics[0].col, 2);
    assert_eq!(diagnostics[0].message, chars("blah "));
}

#[test]
fn lone_header_yields_nothing() {
    let raw = "Error: \"Top.bsv\", line 98, column 3: (P0005)";
    let diagnostics = collect_diagnostics(raw);
    assert_eq!(diagnostics.len(), 0);
}

#[test]
fn adjacent_headers_yield_one_diagnostic() {
    let raw = "Error: \"Top.bsv\", line 1, column 2: (P0001)\nWarning: \"Top.bsv\", line 3, column 4: (G0010)\n  rule body";
    let diagnostics = collect_diagnostics(raw);
    assert_eq!(diagnostics.len(), 1);
    assert_eq!(diagnostics[0].severity, Severity::Warning);
    assert_eq!(diagnostics[0].line, 2);
    assert_eq!(diagnostics[0].col, 3);
    assert_eq!(diagnostics[0].message, chars("rule body "));
}

#[test]
fn diagnostics_come_in_stream_order() {
    let raw = "Warning: \"A.bsv\", line 2, column 5: (G0023)\nfirst body\nError: \"A.bsv\", line 7, column 1: (T0020)\nsecond body";
    let diagnostics = collect_diagnostics(raw);
    assert_eq!(diagnostics.len(), 2);
    assert_eq!(diagnostics[0].severity, Severity::Warning);
    assert_eq!(diagnostics[0].line, 1);
    assert_eq!(diagnostics[0].col, 4);
    assert_eq!(diagnostics[0].message, chars("first body "));
    assert_eq!(diagnostics[1].severity, Severity::Error);
    assert_eq!(diagnostics[1].line, 6);
    assert_eq!(diagnostics[1].col, 0);
    assert_eq!(diagnostics[1].message, chars("second body "));
}

#[test]
fn error_marker_wins_a_tie() {
    let raw = "Warning: Error: \"A.bsv\", line 2, column 2: mixed\nbody";
    let diagnostics = collect_diagnostics(raw);
    assert_eq!(diagnostics.len(), 1);
    assert_eq!(diagnostics[0].severity, Severity::Error);
}

#[test]
fn malformed_position_defaults_to_zero() {
    let raw = "Error: something went wrong\ndetails here";
    let diagnostics = collect_diagnostics(raw);
    assert_eq!(diagnostics.len(), 1);
    assert_eq!(diagnostics[0].line, 0);
    assert_eq!(diagnostics[0].col, 0);
    assert_eq!(diagnostics[0].severity, Severity::Error);
    assert_eq!(diagnostics[0].message, chars("details here "));
}

#[test]
fn preamble_is_gathered_under_default_position() {
    let raw = "checking package\nError: \"A.bsv\", line 5, column 9: (P0005)\nbad token";
    let diagnostics = collect_diagnostics(raw);
    assert_eq!(diagnostics.len(), 2);
    assert_eq!(diagnostics[0].line, 0);
    assert_eq!(diagnostics[0].col, 0);
    assert_eq!(diagnostics[0].severity, Severity::Error);
    assert_eq!(diagnostics[0].message, chars("checking package "));
    assert_eq!(diagnostics[1].line, 4);
    assert_eq!(diagnostics[1].col, 8);
}

#[test]
fn carriage_returns_are_stripped() {
    let raw = "Error: \"T.bsv\", line 2, column 1: (X)\r\n  msg\r\n";
    let diagnostics = collect_diagnostics(raw);
    assert_eq!(diagnostics.len(), 1);
    assert_eq!(diagnostics[0].line, 1);
    assert_eq!(diagnostics[0].col, 0);
    assert_eq!(diagnostics[0].message, chars("msg "));
}

#[test]
fn continuation_lines_join_space_separated() {
    let raw = "Error: \"T.bsv\", line 4, column 7: (P0005)\n  Unexpected token\n    near here";
    let diagnostics = collect_diagnostics(raw);
    assert_eq!(diagnostics.len(), 1);
    assert_eq!(diagnostics[0].message, chars("Unexpected token near here "));
}

#[test]
fn bsc_like_stream_reports_unexpected_identifier() {
    let raw = "Error: \"Top.bsv\", line 112, column 3: (P0005)\n  Unexpected identifier `mkTop'\n";
    let diagnostics = collect_diagnostics(raw);
    assert_eq!(diagnostics.len(), 1);
    assert_eq!(diagnostics[0].line, 111);
    assert_eq!(diagnostics[0].col, 2);
    assert!(text(&diagnostics[0].message).contains("Unexpected identifier "));
}
