//! The control commands of the multiplexer, and how each is spelt as
//! arguments of one invocation.

use crate::text::{decimal, decimal_text, texts_of};
use vstd::prelude::*;
use vstd::string::*;

verus! {

/// One logical action on the multiplexer.
#[derive(Debug, PartialEq, Eq)]
pub enum MuxCommand {
    /// Lists the running sessions, one line each.
    ListSessions,
    /// Asks whether a session of that name runs.
    HasSession { name: String },
    /// Creates a detached session rooted at a path.
    NewSession { name: String, path: String },
    /// Creates a window at an index of a session, rooted at a path.
    NewWindow { name: String, index: usize, path: String },
    /// Gives a window a label.
    RenameWindow { name: String, index: usize, label: String },
    /// Moves the client's focus to a window of a session.
    SwitchClient { name: String, index: usize },
    /// Attaches the terminal to a window of a session.
    AttachSession { name: String, index: usize },
    /// Ends a session.
    KillSession { name: String },
    /// Shows a message in the status line.
    DisplayMessage { text: String },
    /// Types keys into a window and presses Enter.
    SendKeys { name: String, index: usize, keys: String },
}

/// The mathematical value of a [`MuxCommand`].
pub ghost enum MuxCommandView {
    ListSessions,
    HasSession { name: Seq<char> },
    NewSession { name: Seq<char>, path: Seq<char> },
    NewWindow { name: Seq<char>, index: nat, path: Seq<char> },
    RenameWindow { name: Seq<char>, index: nat, label: Seq<char> },
    SwitchClient { name: Seq<char>, index: nat },
    AttachSession { name: Seq<char>, index: nat },
    KillSession { name: Seq<char> },
    DisplayMessage { text: Seq<char> },
    SendKeys { name: Seq<char>, index: nat, keys: Seq<char> },
}

impl View for MuxCommand {
    type V = MuxCommandView;

    open spec fn view(&self) -> MuxCommandView {
        match self {
            MuxCommand::ListSessions => MuxCommandView::ListSessions,
            MuxCommand::HasSession { name } => MuxCommandView::HasSession { name: name@ },
            MuxCommand::NewSession { name, path } => MuxCommandView::NewSession {
                name: name@,
                path: path@,
            },
            MuxCommand::NewWindow { name, index, path } => MuxCommandView::NewWindow {
                name: name@,
                index: *index as nat,
                path: path@,
            },
            MuxCommand::RenameWindow { name, index, label } => MuxCommandView::RenameWindow {
                name: name@,
                index: *index as nat,
                label: label@,
            },
            MuxCommand::SwitchClient { name, index } => MuxCommandView::SwitchClient {
                name: name@,
                index: *index as nat,
            },
            MuxCommand::AttachSession { name, index } => MuxCommandView::AttachSession {
                name: name@,
                index: *index as nat,
            },
            MuxCommand::KillSession { name } => MuxCommandView::KillSession { name: name@ },
            MuxCommand::DisplayMessage { text } => MuxCommandView::DisplayMessage { text: text@ },
            MuxCommand::SendKeys { name, index, keys } => MuxCommandView::SendKeys {
                name: name@,
                index: *index as nat,
                keys: keys@,
            },
        }
    }
}

impl Clone for MuxCommand {
    fn clone(&self) -> (c: MuxCommand)
        ensures
            c@ == self@,
    {
        match self {
            MuxCommand::ListSessions => MuxCommand::ListSessions,
            MuxCommand::HasSession { name } => MuxCommand::HasSession { name: name.clone() },
            MuxCommand::NewSession { name, path } => MuxCommand::NewSession {
                name: name.clone(),
                path: path.clone(),
            },
            MuxCommand::NewWindow { name, index, path } => MuxCommand::NewWindow {
                name: name.clone(),
                index: *index,
                path: path.clone(),
            },
            MuxCommand::RenameWindow { name, index, label } => MuxCommand::RenameWindow {
                name: name.clone(),
                index: *index,
                label: label.clone(),
            },
            MuxCommand::SwitchClient { name, index } => MuxCommand::SwitchClient {
                name: name.clone(),
                index: *index,
            },
            MuxCommand::AttachSession { name, index } => MuxCommand::AttachSession {
                name: name.clone(),
                index: *index,
            },
            MuxCommand::KillSession { name } => MuxCommand::KillSession { name: name.clone() },
            MuxCommand::DisplayMessage { text } => MuxCommand::DisplayMessage {
                text: text.clone(),
            },
            MuxCommand::SendKeys { name, index, keys } => MuxCommand::SendKeys {
                name: name.clone(),
                index: *index,
                keys: keys.clone(),
            },
        }
    }
}

/// The values of a sequence of commands, in order.
pub open spec fn commands_of(cs: Seq<MuxCommand>) -> Seq<MuxCommandView> {
    cs.map_values(|c: MuxCommand| c@)
}

/// How a window of a session is addressed: the session's name, a colon, the
/// window's index in decimal.
pub open spec fn window_target(name: Seq<char>, index: nat) -> Seq<char> {
    name + seq![':'] + decimal(index)
}

impl MuxCommandView {
    /// The arguments that spell the command, after the program's name.
    pub open spec fn args(self) -> Seq<Seq<char>> {
        match self {
            MuxCommandView::ListSessions => seq!["ls"@],
            MuxCommandView::HasSession { name } => seq!["has-session"@, "-t"@, name],
            MuxCommandView::NewSession { name, path } => seq![
                "new-session"@,
                "-ds"@,
                name,
                "-c"@,
                path,
            ],
            MuxCommandView::NewWindow { name, index, path } => seq![
                "new-window"@,
                "-t"@,
                window_target(name, index),
                "-c"@,
                path,
            ],
            MuxCommandView::RenameWindow { name, index, label } => seq![
                "rename-window"@,
                "-t"@,
                window_target(name, index),
                label,
            ],
            MuxCommandView::SwitchClient { name, index } => seq![
                "switch-client"@,
                "-t"@,
                window_target(name, index),
            ],
            MuxCommandView::AttachSession { name, index } => seq![
                "attach-session"@,
                "-t"@,
                window_target(name, index),
            ],
            MuxCommandView::KillSession { name } => seq!["kill-session"@, "-t"@, name],
            MuxCommandView::DisplayMessage { text } => seq!["display-message"@, text],
            MuxCommandView::SendKeys { name, index, keys } => seq![
                "send-keys"@,
                "-t"@,
                window_target(name, index),
                keys,
                "Enter"@,
            ],
        }
    }
}

/// The address of a window of a session.
pub fn target_text(name: &String, index: usize) -> (t: String)
    ensures
        t@ == window_target(name@, index as nat),
{
    proof {
        reveal_strlit(":");
    }
    let number = decimal_text(index);
    let t = name.clone().concat(":").concat(number.as_str());
    t
}

impl MuxCommand {
    /// The arguments that spell the command, after the program's name.
    pub fn args(&self) -> (v: Vec<String>)
        ensures
            texts_of(v@) == self@.args(),
    {
        let v = match self {
            MuxCommand::ListSessions => vec!["ls".to_owned()],
            MuxCommand::HasSession { name } => vec![
                "has-session".to_owned(),
                "-t".to_owned(),
                name.clone(),
            ],
            MuxCommand::NewSession { name, path } => vec![
                "new-session".to_owned(),
                "-ds".to_owned(),
                name.clone(),
                "-c".to_owned(),
                path.clone(),
            ],
            MuxCommand::NewWindow { name, index, path } => vec![
                "new-window".to_owned(),
                "-t".to_owned(),
                target_text(name, *index),
                "-c".to_owned(),
                path.clone(),
            ],
            MuxCommand::RenameWindow { name, index, label } => vec![
                "rename-window".to_owned(),
                "-t".to_owned(),
                target_text(name, *index),
                label.clone(),
            ],
            MuxCommand::SwitchClient { name, index } => vec![
                "switch-client".to_owned(),
                "-t".to_owned(),
                target_text(name, *index),
            ],
            MuxCommand::AttachSession { name, index } => vec![
                "attach-session".to_owned(),
                "-t".to_owned(),
                target_text(name, *index),
            ],
            MuxCommand::KillSession { name } => vec![
                "kill-session".to_owned(),
                "-t".to_owned(),
                name.clone(),
            ],
            MuxCommand::DisplayMessage { text } => vec![
                "display-message".to_owned(),
                text.clone(),
            ],
            MuxCommand::SendKeys { name, index, keys } => vec![
                "send-keys".to_owned(),
                "-t".to_owned(),
                target_text(name, *index),
                keys.clone(),
                "Enter".to_owned(),
            ],
        };
        v
    }
}

} // verus!
