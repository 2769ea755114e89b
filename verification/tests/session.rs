//! Tests for the document session controller: lifecycle transitions, and what
//! each compile round publishes.

use bsv_lang_server::extract::Severity;
use bsv_lang_server::session::CompileAction;
use bsv_lang_server::session::diagnostics_round;
use bsv_lang_server::session::DocEvent;
use bsv_lang_server::session::Publication;
use bsv_lang_server::session::Session;
use bsv_lang_server::session::SessionState;

fn chars(s: &str) -> Vec<char> {
    s.chars().collect()
}

#[test]
fn open_and_save_run_the_compiler() {
    let mut session = Session::new(String::from("/work/Top.bsv"));
    assert_eq!(session.state, SessionState::Closed);
    assert_eq!(session.handle_event(DocEvent::Open), CompileAction::Run);
    assert_eq!(session.state, SessionState::Open);
    assert_eq!(session.handle_event(DocEvent::Save), CompileAction::Run);
    assert_eq!(session.state, SessionState::Open);
    assert_eq!(session.path, "/work/Top.bsv");
}

#[test]
fn change_and_close_skip_the_compiler() {
    let mut session = Session::new(String::from("/work/Top.bsv"));
    session.handle_event(DocEvent::Open);
    assert_eq!(session.handle_event(DocEvent::Change), CompileAction::Skip);
    assert_eq!(session.state, SessionState::Open);
    assert_eq!(session.handle_event(DocEvent::Close), CompileAction::Skip);
    assert_eq!(session.state, SessionState::Closed);
}

#[test]
fn save_republishes_a_fresh_set() {
    let first = "Error: \"T.bsv\", line 3, column 1: (A)\nold problem\nWarning: \"T.bsv\", line 9, column 2: (B)\nanother old problem";
    let second = "Error: \"T.bsv\", line 5, column 4: (C)\nnew problem";
    let round_one = diagnostics_round(Some(first));
    match round_one {
        Publication::Publish(diagnostics) => {
            assert_eq!(diagnostics.len(), 2);
        },
        Publication::LogError => panic!("first round should publish"),
    }
    let round_two = diagnostics_round(Some(second));
    match round_two {
        Publication::Publish(diagnostics) => {
            assert_eq!(diagnostics.len(), 1);
            assert_eq!(diagnostics[0].line, 4);
            assert_eq!(diagnostics[0].col, 3);
            assert_eq!(diagnostics[0].severity, Severity::Error);
            assert_eq!(diagnostics[0].message, chars("new problem "));
        },
        Publication::LogError => panic!("second round should publish"),
    }
}

#[test]
fn successful_round_with_clean_output_publishes_empty_set() {
    match diagnostics_round(Some("")) {
        Publication::Publish(diagnostics) => assert_eq!(diagnostics.len(), 0),
        Publication::LogError => panic!("a clean run still publishes"),
    }
}

#[test]
fn failed_invocation_publishes_nothing() {
    match diagnostics_round(None) {
        Publication::Publish(_) => panic!("a failed run publishes nothing"),
        Publication::LogError => {},
    }
}
