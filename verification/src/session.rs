//! The document session controller: a state machine over one document's
//! lifecycle that decides when the compiler is re-run and what each round
//! publishes.
//!
//! Opening or saving a document re-runs the compiler and republishes the full
//! fresh diagnostic set, replacing whatever was published before. A change
//! does nothing — diagnostics are intentionally stale between saves. A close
//! leaves the published set to the editor. A failed compiler invocation
//! degrades to a log-level error and no publication; it never ends the
//! session. The unverified program around this library performs the compiler
//! run and the protocol traffic; this module decides.

use crate::extract::collect_diagnostics;
use crate::extract::extract_spec;
use crate::extract::Diagnostic;
use crate::extract::DiagnosticView;
use vstd::prelude::*;

verus! {

/// The lifecycle state the controller tracks for a document.
#[derive(Clone, Copy, Debug, PartialEq, Eq, Structural)]
pub enum SessionState {
    Closed,
    Open,
}

/// A document lifecycle event from the editor.
#[derive(Clone, Copy, Debug, PartialEq, Eq, Structural)]
pub enum DocEvent {
    Open,
    Change,
    Save,
    Close,
}

/// Whether an event has the compiler re-run for the document.
#[derive(Clone, Copy, Debug, PartialEq, Eq, Structural)]
pub enum CompileAction {
    Run,
    Skip,
}

/// The lifecycle state after an event: open opens, close closes, change and
/// save leave the state as it is.
pub open spec fn next_state(s: SessionState, e: DocEvent) -> SessionState {
    match e {
        DocEvent::Open => SessionState::Open,
        DocEvent::Change => s,
        DocEvent::Save => s,
        DocEvent::Close => SessionState::Closed,
    }
}

/// Which events re-run the compiler: open and save. A change leaves the
/// published diagnostics intentionally stale; a close leaves them to the
/// editor, which discards them with the document.
pub open spec fn action_of(e: DocEvent) -> CompileAction {
    match e {
        DocEvent::Open => CompileAction::Run,
        DocEvent::Change => CompileAction::Skip,
        DocEvent::Save => CompileAction::Run,
        DocEvent::Close => CompileAction::Skip,
    }
}

/// Per-document state: the document's file path and its lifecycle state. No
/// cross-edit memory is kept; every compile round starts afresh.
pub struct Session {
    pub path: String,
    pub state: SessionState,
}

impl Session {
    /// A session for a document not yet opened.
    pub fn new(path: String) -> (s: Session)
        ensures
            s.state == SessionState::Closed,
            s.path@ == path@,
    {
        Session { path, state: SessionState::Closed }
    }

    /// Step the lifecycle state machine: the new state follows `next_state`,
    /// the returned compiler action follows `action_of`. The document path
    /// never changes.
    pub fn handle_event(&mut self, e: DocEvent) -> (a: CompileAction)
        ensures
            final(self).state == next_state(old(self).state, e),
            final(self).path@ == old(self).path@,
            a == action_of(e),
    {
        match e {
            DocEvent::Open => {
                self.state = SessionState::Open;
                CompileAction::Run
            },
            DocEvent::Change => CompileAction::Skip,
            DocEvent::Save => CompileAction::Run,
            DocEvent::Close => {
                self.state = SessionState::Closed;
                CompileAction::Skip
            },
        }
    }
}

/// What one compile round sends to the client: the full fresh diagnostic set,
/// replacing any earlier one — or, where the compiler could not be run, a
/// log-level error signal and no diagnostics.
pub enum Publication {
    Publish(Vec<Diagnostic>),
    LogError,
}

/// The mathematical shape of a `Publication`.
#[verifier::ext_equal]
pub ghost enum PublicationView {
    Publish(Seq<DiagnosticView>),
    LogError,
}

impl View for Publication {
    type V = PublicationView;

    open spec fn view(&self) -> PublicationView {
        match self {
            Publication::Publish(d) => PublicationView::Publish(d.deep_view()),
            Publication::LogError => PublicationView::LogError,
        }
    }
}

/// The raw text of a compile outcome, where the run succeeded.
pub open spec fn outcome_view(outcome: Option<&str>) -> Option<Seq<char>> {
    match outcome {
        Some(raw) => Some(raw@),
        None => None,
    }
}

/// The publication one compile outcome determines: the extraction of the raw
/// error stream when the run succeeded, a log-error signal when it did not.
/// It is a function of the latest outcome alone: no earlier round enters.
pub open spec fn round_spec(outcome: Option<Seq<char>>) -> PublicationView {
    match outcome {
        Some(raw) => PublicationView::Publish(extract_spec(raw)),
        None => PublicationView::LogError,
    }
}

/// Decide what one compile round publishes. `outcome` is the raw error-stream
/// text of the compiler run, or nothing where the run could not be made; a
/// failed run yields a log signal, never an abort.
pub fn diagnostics_round(outcome: Option<&str>) -> (r: Publication)
    ensures
        r@ == round_spec(outcome_view(outcome)),
{
    match outcome {
        Some(raw) => Publication::Publish(collect_diagnostics(raw)),
        None => Publication::LogError,
    }
}

/// The publications a sequence of rounds produces from a starting state. Each
/// entry of the trace is one event with the outcome of the compiler run made
/// for it (unused where the event runs no compiler): the event steps the
/// state machine, and each run publishes what its outcome determines, in
/// order.
pub open spec fn run_publications(
    s: SessionState,
    trace: Seq<(DocEvent, Option<Seq<char>>)>,
) -> Seq<PublicationView>
    decreases trace.len(),
{
    if trace.len() == 0 {
        Seq::empty()
    } else {
        let step = if action_of(trace[0].0) == CompileAction::Run {
            seq![round_spec(trace[0].1)]
        } else {
            Seq::empty()
        };
        step + run_publications(next_state(s, trace[0].0), trace.drop_first())
    }
}

/// One more round after a trace: the publications are those of the trace,
/// then whatever the new event's action and outcome determine — nothing of
/// the earlier rounds enters the new publication.
pub proof fn lemma_run_snoc(
    s: SessionState,
    trace: Seq<(DocEvent, Option<Seq<char>>)>,
    e: DocEvent,
    out: Option<Seq<char>>,
)
    ensures
        run_publications(s, trace.push((e, out))) == run_publications(s, trace) + (
        if action_of(e) == CompileAction::Run {
            seq![round_spec(out)]
        } else {
            Seq::<PublicationView>::empty()
        }),
    decreases trace.len(),
{
    let whole = trace.push((e, out));
    let step = if action_of(e) == CompileAction::Run {
        seq![round_spec(out)]
    } else {
        Seq::<PublicationView>::empty()
    };
    if trace.len() == 0 {
        assert(whole[0] == (e, out));
        assert(whole[0].0 == e && whole[0].1 == out);
        assert(whole.drop_first() =~= Seq::<(DocEvent, Option<Seq<char>>)>::empty());
        assert(run_publications(next_state(s, e), whole.drop_first())
            == Seq::<PublicationView>::empty());
        assert(run_publications(s, whole) == step + Seq::<PublicationView>::empty());
        assert(step + Seq::<PublicationView>::empty() =~= step);
        assert(run_publications(s, trace) == Seq::<PublicationView>::empty());
        assert(Seq::<PublicationView>::empty() + step =~= step);
    } else {
        assert(whole[0] == trace[0]);
        assert(whole.drop_first() =~= trace.drop_first().push((e, out)));
        lemma_run_snoc(next_state(s, trace[0].0), trace.drop_first(), e, out);
        assert(run_publications(s, whole) =~= run_publications(s, trace) + (
        if action_of(e) == CompileAction::Run {
            seq![round_spec(out)]
        } else {
            Seq::<PublicationView>::empty()
        }));
    }
}

/// A save always republishes a fresh set that fully replaces the previous
/// one: after any earlier rounds, a save whose compiler run wrote `raw`
/// publishes exactly the extraction of `raw`, with no residue of any earlier
/// round's output.
pub proof fn lemma_save_republishes(
    s: SessionState,
    trace: Seq<(DocEvent, Option<Seq<char>>)>,
    raw: Seq<char>,
)
    ensures
        run_publications(s, trace.push((DocEvent::Save, Some(raw)))) == run_publications(s, trace)
            + seq![PublicationView::Publish(extract_spec(raw))],
{
    lemma_run_snoc(s, trace, DocEvent::Save, Some(raw));
}

/// An invocation failure yields a log-error signal and zero published
/// diagnostics, wherever it falls in a run — and no abort: every deciding
/// function returns normally.
pub proof fn lemma_failure_publishes_nothing(
    s: SessionState,
    trace: Seq<(DocEvent, Option<Seq<char>>)>,
    e: DocEvent,
)
    requires
        action_of(e) == CompileAction::Run,
    ensures
        run_publications(s, trace.push((e, None))) == run_publications(s, trace) + seq![
            PublicationView::LogError,
        ],
{
    lemma_run_snoc(s, trace, e, None);
}

} // verus!
