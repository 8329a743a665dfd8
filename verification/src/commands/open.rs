//! Opening a session: the orchestrator.
//!
//! Opening alternates between work that only the caller can do (running the
//! multiplexer and the selector, reading directories) and decisions.  The
//! decisions are made here: [`open`] begins, and [`advance`] takes what the
//! caller's last action brought in and says what to do next.

use crate::candidate::{Candidate, CandidateView};
use crate::classifier::{
    classified, classify, descends, needs_children, RootListing, ScanError, ScanErrorView,
    SearchMode,
};
use crate::commands::cli::{mode_of, search_mode, GitMode};
use crate::config::Config;
use crate::materializer::{materialize, materialized, MaterializeError, MaterializeErrorView};
use crate::mux::{commands_of, MuxCommand, MuxCommandView};
use crate::registry::{display_order, registry_of, Registry};
use crate::selector::{render, rendered, resolved, select_via_fzf, Selection, SelectionView};
use crate::text::{copy_texts, texts_of, trimmed};
use crate::utils::{existing_session_names, session_names, SessionError, SessionErrorView};
use vstd::prelude::*;
use vstd::string::*;

verus! {

/// Why opening failed.
#[derive(Debug, PartialEq, Eq)]
pub enum OpenError {
    /// The session listing could not be read.
    Sessions(SessionError),
    /// A root could not be classified.
    Scan(ScanError),
    /// The selector answered with a name that it was not offered.
    NotOffered { text: String },
    /// No session could be planned for the chosen candidate.
    Materialize(MaterializeError),
    /// What came in does not answer the action that was asked for.
    Unexpected,
}

/// The mathematical value of an [`OpenError`].
pub ghost enum OpenErrorView {
    Sessions(SessionErrorView),
    Scan(ScanErrorView),
    NotOffered { text: Seq<char> },
    Materialize(MaterializeErrorView),
    Unexpected,
}

impl View for OpenError {
    type V = OpenErrorView;

    open spec fn view(&self) -> OpenErrorView {
        match self {
            OpenError::Sessions(e) => OpenErrorView::Sessions(e@),
            OpenError::Scan(e) => OpenErrorView::Scan(e@),
            OpenError::NotOffered { text } => OpenErrorView::NotOffered { text: text@ },
            OpenError::Materialize(e) => OpenErrorView::Materialize(e@),
            OpenError::Unexpected => OpenErrorView::Unexpected,
        }
    }
}

/// What the caller is to do next.
#[derive(Debug, PartialEq, Eq)]
pub enum Action {
    /// List the running sessions and hand the output back as
    /// [`Event::Listed`].
    ListSessions,
    /// Resolve each root, read its children where `descend` is set, and hand
    /// the listings back as [`Event::Scanned`].
    Scan { roots: Vec<String>, descend: bool },
    /// Run the selector on the text and hand its output back as
    /// [`Event::Selected`].
    Select { text: String },
    /// Ask whether a session of that name runs and hand the answer back as
    /// [`Event::Exists`].
    HasSession { name: String },
    /// Run the commands in order, stopping at the first that fails.  This
    /// ends the operation.
    Run { commands: Vec<MuxCommand> },
    /// Nothing was chosen: end without touching the multiplexer.
    Cancel,
    /// End with the error.
    Fail(OpenError),
}

/// The mathematical value of an [`Action`].
pub ghost enum ActionView {
    ListSessions,
    Scan { roots: Seq<Seq<char>>, descend: bool },
    Select { text: Seq<char> },
    HasSession { name: Seq<char> },
    Run { commands: Seq<MuxCommandView> },
    Cancel,
    Fail(OpenErrorView),
}

impl View for Action {
    type V = ActionView;

    open spec fn view(&self) -> ActionView {
        match self {
            Action::ListSessions => ActionView::ListSessions,
            Action::Scan { roots, descend } => ActionView::Scan {
                roots: texts_of(roots@),
                descend: *descend,
            },
            Action::Select { text } => ActionView::Select { text: text@ },
            Action::HasSession { name } => ActionView::HasSession { name: name@ },
            Action::Run { commands } => ActionView::Run { commands: commands_of(commands@) },
            Action::Cancel => ActionView::Cancel,
            Action::Fail(e) => ActionView::Fail(e@),
        }
    }
}

/// What the caller's last action brought in.
#[derive(Debug)]
pub enum Event {
    /// The output of the session listing.
    Listed { output: String },
    /// The listings of the roots, in the order of the roots.
    Scanned { roots: Vec<RootListing> },
    /// The output of the selector.
    Selected { output: String },
    /// Whether the session that was asked for runs.
    Exists { running: bool },
}

/// How far opening has come.
#[derive(Debug)]
pub enum OpenState {
    /// The session listing is awaited.
    AwaitSessions { mode: SearchMode },
    /// The listings of the roots are awaited.
    AwaitScan { mode: SearchMode, sessions: Vec<String> },
    /// The selector's answer is awaited.
    AwaitSelection { registry: Registry },
    /// The answer whether the chosen session runs is awaited.
    AwaitExistence { chosen: Candidate },
    /// Opening has ended.
    Done,
}

/// The mathematical value of an [`OpenState`].
pub ghost enum OpenStateView {
    AwaitSessions { mode: SearchMode },
    AwaitScan { mode: SearchMode, sessions: Seq<Seq<char>> },
    AwaitSelection { registry: Seq<CandidateView> },
    AwaitExistence { chosen: CandidateView },
    Done,
}

impl View for OpenState {
    type V = OpenStateView;

    open spec fn view(&self) -> OpenStateView {
        match self {
            OpenState::AwaitSessions { mode } => OpenStateView::AwaitSessions { mode: *mode },
            OpenState::AwaitScan { mode, sessions } => OpenStateView::AwaitScan {
                mode: *mode,
                sessions: texts_of(sessions@),
            },
            OpenState::AwaitSelection { registry } => OpenStateView::AwaitSelection {
                registry: registry@,
            },
            OpenState::AwaitExistence { chosen } => OpenStateView::AwaitExistence {
                chosen: chosen@,
            },
            OpenState::Done => OpenStateView::Done,
        }
    }
}

/// The end of opening with an error.
pub open spec fn failed(e: OpenErrorView) -> (OpenStateView, ActionView) {
    (OpenStateView::Done, ActionView::Fail(e))
}

/// After the session listing: the roots are scanned as the mode asks.
pub open spec fn after_listing(mode: SearchMode, roots: Seq<Seq<char>>, output: Seq<char>) -> (
    OpenStateView,
    ActionView,
) {
    match session_names(output) {
        Err(e) => failed(OpenErrorView::Sessions(e)),
        Ok(sessions) => (
            OpenStateView::AwaitScan { mode, sessions },
            ActionView::Scan { roots, descend: descends(mode) },
        ),
    }
}

/// After the scan: the registry is built, the reserved default session
/// first, then the running sessions, then what was found; the selector is
/// shown its entries in display order.
pub open spec fn after_scan(
    mode: SearchMode,
    default: Seq<char>,
    sessions: Seq<Seq<char>>,
    listings: Seq<RootListing>,
) -> (OpenStateView, ActionView) {
    match classified(listings, mode) {
        Err(e) => failed(OpenErrorView::Scan(e)),
        Ok(found) => {
            let registry = registry_of(default, sessions, found);
            (
                OpenStateView::AwaitSelection { registry },
                ActionView::Select { text: rendered(display_order(registry, default)) },
            )
        },
    }
}

/// After the selection: empty output ends opening as cancelled, with no
/// command for the multiplexer; a name that was offered is asked after; any
/// other answer is an error.
pub open spec fn after_selection(registry: Seq<CandidateView>, output: Seq<char>) -> (
    OpenStateView,
    ActionView,
) {
    match resolved(registry, trimmed(output)) {
        SelectionView::Cancelled => (OpenStateView::Done, ActionView::Cancel),
        SelectionView::NotOffered { text } => failed(OpenErrorView::NotOffered { text }),
        SelectionView::Chosen(chosen) => (
            OpenStateView::AwaitExistence { chosen },
            ActionView::HasSession { name: chosen.name },
        ),
    }
}

/// After the existence check: the commands of the materializer are run.
pub open spec fn after_existence(chosen: CandidateView, running: bool) -> (
    OpenStateView,
    ActionView,
) {
    match materialized(chosen, running) {
        Err(e) => failed(OpenErrorView::Materialize(e)),
        Ok(commands) => (OpenStateView::Done, ActionView::Run { commands }),
    }
}

/// The step of the orchestrator: session listing, scan, merge and display,
/// selection, materialization, in that order.  An event that does not
/// answer the pending action ends opening with an error.
pub open spec fn next(
    state: OpenStateView,
    default: Seq<char>,
    roots: Seq<Seq<char>>,
    event: Event,
) -> (OpenStateView, ActionView) {
    match (state, event) {
        (OpenStateView::AwaitSessions { mode }, Event::Listed { output }) => after_listing(
            mode,
            roots,
            output@,
        ),
        (OpenStateView::AwaitScan { mode, sessions }, Event::Scanned { roots: listings }) => {
            after_scan(mode, default, sessions, listings@)
        },
        (OpenStateView::AwaitSelection { registry }, Event::Selected { output }) => {
            after_selection(registry, output@)
        },
        (
            OpenStateView::AwaitExistence { chosen },
            Event::Exists { running },
        ) => after_existence(chosen, running),
        _ => failed(OpenErrorView::Unexpected),
    }
}

/// Commands reach the multiplexer only at the end: the step hands commands
/// out only in answer to the existence check of a chosen candidate, and
/// opening is over then.
pub proof fn lemma_commands_come_last(
    state: OpenStateView,
    default: Seq<char>,
    roots: Seq<Seq<char>>,
    event: Event,
)
    requires
        next(state, default, roots, event).1 is Run,
    ensures
        state is AwaitExistence,
        event is Exists,
        next(state, default, roots, event).0 is Done,
{
}

/// A selection that is empty but for white space ends opening as cancelled:
/// the step hands no command out, and every later step fails.
pub proof fn lemma_cancellation_ends(
    registry: Seq<CandidateView>,
    default: Seq<char>,
    roots: Seq<Seq<char>>,
    output: String,
    later: Event,
)
    requires
        trimmed(output@).len() == 0,
    ensures
        next(
            OpenStateView::AwaitSelection { registry },
            default,
            roots,
            Event::Selected { output },
        ) == (OpenStateView::Done, ActionView::Cancel),
        next(OpenStateView::Done, default, roots, later) == failed(OpenErrorView::Unexpected),
{
}

/// Begins opening: the search mode is fixed by the options, and the first
/// thing asked for is the session listing.
pub fn open(git: bool, git_mode: Option<&GitMode>) -> (r: (OpenState, Action))
    ensures
        r.0@ == (OpenStateView::AwaitSessions {
            mode: mode_of(
                git,
                match git_mode {
                    Some(m) => Some(*m),
                    None => None,
                },
            ),
        }),
        r.1@ == ActionView::ListSessions,
{
    (OpenState::AwaitSessions { mode: search_mode(git, git_mode) }, Action::ListSessions)
}

/// Begins opening in a given search mode.
pub fn open_in_mode(mode: SearchMode) -> (r: (OpenState, Action))
    ensures
        r.0@ == (OpenStateView::AwaitSessions { mode }),
        r.1@ == ActionView::ListSessions,
{
    (OpenState::AwaitSessions { mode }, Action::ListSessions)
}

/// Takes what the caller's last action brought in, and says how far opening
/// has come and what to do next.
pub fn advance(state: OpenState, config: &Config, event: Event) -> (r: (OpenState, Action))
    ensures
        (r.0@, r.1@) == next(state@, config.default_session@, texts_of(config.roots@), event),
{
    match (state, event) {
        (OpenState::AwaitSessions { mode }, Event::Listed { output }) => {
            match existing_session_names(output.as_str()) {
                Err(e) => (OpenState::Done, Action::Fail(OpenError::Sessions(e))),
                Ok(sessions) => (
                    OpenState::AwaitScan { mode, sessions },
                    Action::Scan { roots: copy_texts(&config.roots), descend: needs_children(mode) },
                ),
            }
        },
        (OpenState::AwaitScan { mode, sessions }, Event::Scanned { roots }) => {
            match classify(&roots, mode) {
                Err(e) => (OpenState::Done, Action::Fail(OpenError::Scan(e))),
                Ok(found) => {
                    let registry = Registry::build(
                        config.default_session.as_str(),
                        &sessions,
                        found,
                    );
                    let shown = registry.ordered(config.default_session.as_str());
                    let text = render(&shown);
                    (OpenState::AwaitSelection { registry }, Action::Select { text })
                },
            }
        },
        (OpenState::AwaitSelection { registry }, Event::Selected { output }) => {
            match select_via_fzf(&registry, output.as_str()) {
                Selection::Cancelled => (OpenState::Done, Action::Cancel),
                Selection::NotOffered { text } => (
                    OpenState::Done,
                    Action::Fail(OpenError::NotOffered { text }),
                ),
                Selection::Chosen(chosen) => {
                    let name = chosen.name.clone();
                    (OpenState::AwaitExistence { chosen }, Action::HasSession { name })
                },
            }
        },
        (OpenState::AwaitExistence { chosen }, Event::Exists { running }) => {
            match materialize(&chosen, running) {
                Err(e) => (OpenState::Done, Action::Fail(OpenError::Materialize(e))),
                Ok(commands) => (OpenState::Done, Action::Run { commands }),
            }
        },
        _ => (OpenState::Done, Action::Fail(OpenError::Unexpected)),
    }
}

} // verus!
