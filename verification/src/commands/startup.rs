//! Bringing the reserved default session up when the terminal starts.

use crate::mux::{commands_of, MuxCommand, MuxCommandView};
use crate::utils::{tmux_display_message, tmux_has_session, tmux_switch_client};
use vstd::prelude::*;
use vstd::string::*;

verus! {

/// Why the default session could not be planned.
#[derive(Debug, Clone, Copy, PartialEq, Eq)]
pub enum StartupError {
    /// The session has to be created and no home directory is known.
    MissingHome,
}

/// The first step of a start.
#[derive(Debug, PartialEq, Eq)]
pub enum Startup {
    /// The terminal is outside the multiplexer: the commands to run.
    Run { commands: Vec<MuxCommand> },
    /// The terminal is inside the multiplexer: the question to put to it
    /// first, whose answer [`startup_inside`] takes.
    Ask { query: MuxCommand },
}

/// The mathematical value of a [`Startup`].
pub ghost enum StartupView {
    Run { commands: Seq<MuxCommandView> },
    Ask { query: MuxCommandView },
}

impl View for Startup {
    type V = StartupView;

    open spec fn view(&self) -> StartupView {
        match self {
            Startup::Run { commands } => StartupView::Run { commands: commands_of(commands@) },
            Startup::Ask { query } => StartupView::Ask { query: query@ },
        }
    }
}

/// The value of an optional string slice.
pub open spec fn value_of(s: Option<&str>) -> Option<Seq<char>> {
    match s {
        Some(t) => Some(t@),
        None => None,
    }
}

/// Whether the terminal runs inside the multiplexer: the variable that the
/// multiplexer sets is there and not empty.
pub open spec fn is_inside(tmux: Option<Seq<char>>) -> bool {
    tmux matches Some(v) && v.len() > 0
}

/// The commands that create the default session: the session rooted at the
/// home directory, and a second window there.
pub open spec fn default_creation(default: Seq<char>, home: Seq<char>) -> Seq<MuxCommandView> {
    seq![
        MuxCommandView::NewSession { name: default, path: home },
        MuxCommandView::NewWindow { name: default, index: 2, path: home },
    ]
}

/// The message that says that the default session runs.
pub open spec fn already_running(default: Seq<char>) -> Seq<char> {
    "The default session '"@ + default + "' is already running"@
}

/// The first step of a start: outside the multiplexer the default session is
/// created and attached to; inside, the multiplexer is asked whether it
/// runs.
pub open spec fn started(
    default: Seq<char>,
    tmux: Option<Seq<char>>,
    home: Option<Seq<char>>,
) -> Result<StartupView, StartupError> {
    if is_inside(tmux) {
        Ok(StartupView::Ask { query: MuxCommandView::HasSession { name: default } })
    } else {
        match home {
            None => Err(StartupError::MissingHome),
            Some(home) => Ok(
                StartupView::Run {
                    commands: default_creation(default, home).push(
                        MuxCommandView::AttachSession { name: default, index: 1 },
                    ),
                },
            ),
        }
    }
}

/// The commands of a start inside the multiplexer: a message where the
/// default session runs; else its creation and the move to its first window.
pub open spec fn started_inside(default: Seq<char>, runs: bool, home: Option<Seq<char>>) -> Result<
    Seq<MuxCommandView>,
    StartupError,
> {
    if runs {
        Ok(seq![MuxCommandView::DisplayMessage { text: already_running(default) }])
    } else {
        match home {
            None => Err(StartupError::MissingHome),
            Some(home) => Ok(
                default_creation(default, home).push(
                    MuxCommandView::SwitchClient { name: default, index: 1 },
                ),
            ),
        }
    }
}

/// The commands that create the default session at the home directory.
pub fn create_default_session(default: &str, home: Option<&str>) -> (r: Result<
    Vec<MuxCommand>,
    StartupError,
>)
    ensures
        match home {
            Some(h) => r matches Ok(v) && commands_of(v@) == default_creation(default@, h@),
            None => r == Err::<Vec<MuxCommand>, StartupError>(StartupError::MissingHome),
        },
{
    match home {
        None => Err(StartupError::MissingHome),
        Some(h) => {
            let v = vec![
                MuxCommand::NewSession { name: default.to_owned(), path: h.to_owned() },
                MuxCommand::NewWindow { name: default.to_owned(), index: 2, path: h.to_owned() },
            ];
            Ok(v)
        },
    }
}

/// The first step of a start, given the value of the variable that the
/// multiplexer sets and the home directory, each as far as it is set.
pub fn startup(default: &str, tmux: Option<&str>, home: Option<&str>) -> (r: Result<
    Startup,
    StartupError,
>)
    ensures
        match started(default@, value_of(tmux), value_of(home)) {
            Ok(step) => r matches Ok(s) && s@ == step,
            Err(e) => r matches Err(x) && x == e,
        },
{
    let inside = match tmux {
        Some(v) => v.unicode_len() > 0,
        None => false,
    };
    if inside {
        Ok(Startup::Ask { query: tmux_has_session(default) })
    } else {
        match create_default_session(default, home) {
            Err(e) => Err(e),
            Ok(mut commands) => {
                let attach = MuxCommand::AttachSession { name: default.to_owned(), index: 1 };
                proof {
                    assert(commands_of(commands@.push(attach)) =~= commands_of(commands@).push(
                        attach@,
                    ));
                }
                commands.push(attach);
                Ok(Startup::Run { commands })
            },
        }
    }
}

/// The commands of a start inside the multiplexer, given whether the
/// default session runs.
pub fn startup_inside(default: &str, runs: bool, home: Option<&str>) -> (r: Result<
    Vec<MuxCommand>,
    StartupError,
>)
    ensures
        match started_inside(default@, runs, value_of(home)) {
            Ok(commands) => r matches Ok(v) && commands_of(v@) == commands,
            Err(e) => r matches Err(x) && x == e,
        },
{
    if runs {
        let text = "The default session '".to_owned().concat(default).concat(
            "' is already running",
        );
        let v = vec![tmux_display_message(text.as_str())];
        Ok(v)
    } else {
        match create_default_session(default, home) {
            Err(e) => Err(e),
            Ok(mut commands) => {
                let switch = tmux_switch_client(default, Some(1));
                commands.push(switch);
                Ok(commands)
            },
        }
    }
}

} // verus!
