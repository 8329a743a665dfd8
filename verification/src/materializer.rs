//! The materializer: the commands that bring the chosen candidate up as a
//! session.

use crate::candidate::{Candidate, CandidateView};
use crate::mux::{commands_of, MuxCommand, MuxCommandView};
use vstd::prelude::*;
use vstd::string::*;

verus! {

/// The label of the window that the editor runs in.
pub const EDITOR_LABEL: &'static str = "Neovim";

/// The label of the window that is left to the shell.
pub const SHELL_LABEL: &'static str = "Bash";

/// What is typed into the first window to start the editor.
pub const EDITOR_KEYS: &'static str = "v";

/// Why no session could be planned.
#[derive(Debug, PartialEq, Eq)]
pub enum MaterializeError {
    /// The session does not run and the candidate has no path to root a new
    /// one at.
    MissingPath { name: String },
}

/// The mathematical value of a [`MaterializeError`].
pub ghost enum MaterializeErrorView {
    MissingPath { name: Seq<char> },
}

impl View for MaterializeError {
    type V = MaterializeErrorView;

    open spec fn view(&self) -> MaterializeErrorView {
        match self {
            MaterializeError::MissingPath { name } => MaterializeErrorView::MissingPath {
                name: name@,
            },
        }
    }
}

/// A plan: the commands to run in order, or why there is none.
pub type Plan = Result<Seq<MuxCommandView>, MaterializeErrorView>;

/// The value of a planned result.
pub open spec fn plan_of(r: Result<Vec<MuxCommand>, MaterializeError>) -> Plan {
    match r {
        Ok(v) => Ok(commands_of(v@)),
        Err(e) => Err(e@),
    }
}

/// The commands that create a session with its two windows: the session
/// rooted at the path, its first window labelled for the editor, a second
/// window at the path labelled for the shell, the focus moved to the first
/// window, and the editor started there.
pub open spec fn creation(name: Seq<char>, path: Seq<char>) -> Seq<MuxCommandView> {
    seq![
        MuxCommandView::NewSession { name, path },
        MuxCommandView::RenameWindow { name, index: 1, label: EDITOR_LABEL@ },
        MuxCommandView::NewWindow { name, index: 2, path },
        MuxCommandView::RenameWindow { name, index: 2, label: SHELL_LABEL@ },
        MuxCommandView::SwitchClient { name, index: 1 },
        MuxCommandView::SendKeys { name, index: 1, keys: EDITOR_KEYS@ },
    ]
}

/// The plan that creates the session of a candidate.
pub open spec fn created(c: CandidateView) -> Plan {
    match c.path {
        Some(path) => Ok(creation(c.name, path)),
        None => Err(MaterializeErrorView::MissingPath { name: c.name }),
    }
}

/// The plan for a chosen candidate: where a session of its name runs, the
/// focus moves to that session's first window and nothing else happens;
/// where none runs, the session is created.
pub open spec fn materialized(c: CandidateView, running: bool) -> Plan {
    if running {
        Ok(seq![MuxCommandView::SwitchClient { name: c.name, index: 1 }])
    } else {
        created(c)
    }
}

/// The commands that create the session of the selected candidate, in the
/// order in which they are to run.  Nothing is undone where one of them
/// fails: the caller stops at the first failure.
pub fn create_tmux_session(selected_session: &Candidate) -> (r: Result<
    Vec<MuxCommand>,
    MaterializeError,
>)
    ensures
        plan_of(r) == created(selected_session@),
{
    match &selected_session.path {
        None => Err(MaterializeError::MissingPath { name: selected_session.name.clone() }),
        Some(path) => {
            let name = &selected_session.name;
            let v = vec![
                MuxCommand::NewSession { name: name.clone(), path: path.clone() },
                MuxCommand::RenameWindow {
                    name: name.clone(),
                    index: 1,
                    label: EDITOR_LABEL.to_owned(),
                },
                MuxCommand::NewWindow { name: name.clone(), index: 2, path: path.clone() },
                MuxCommand::RenameWindow {
                    name: name.clone(),
                    index: 2,
                    label: SHELL_LABEL.to_owned(),
                },
                MuxCommand::SwitchClient { name: name.clone(), index: 1 },
                MuxCommand::SendKeys {
                    name: name.clone(),
                    index: 1,
                    keys: EDITOR_KEYS.to_owned(),
                },
            ];
            assert(commands_of(v@) =~= creation(name@, path@));
            Ok(v)
        },
    }
}

/// The commands for the selected candidate, given whether a session of its
/// name runs.
pub fn materialize(selected_session: &Candidate, running: bool) -> (r: Result<
    Vec<MuxCommand>,
    MaterializeError,
>)
    ensures
        plan_of(r) == materialized(selected_session@, running),
{
    if running {
        let v = vec![MuxCommand::SwitchClient { name: selected_session.name.clone(), index: 1 }];
        assert(commands_of(v@) =~= seq![
            MuxCommandView::SwitchClient { name: selected_session@.name, index: 1 },
        ]);
        Ok(v)
    } else {
        create_tmux_session(selected_session)
    }
}

} // verus!
