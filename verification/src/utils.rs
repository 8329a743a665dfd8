//! The session listing of the multiplexer, and the commands that address one
//! session.

use crate::mux::{MuxCommand, MuxCommandView};
use crate::text::{chars_of, contains_str, contains_text, find_char, lines, position, slice_of, split_lines, texts_of};
use vstd::prelude::*;
use vstd::string::*;

verus! {

/// Why a session listing could not be used.
#[derive(Debug, PartialEq, Eq)]
pub enum SessionError {
    /// The line has no colon after the session's name.
    Malformed { line: String },
    /// No line is marked as attached.
    NoCurrentSession,
}

/// The mathematical value of a [`SessionError`].
pub ghost enum SessionErrorView {
    Malformed { line: Seq<char> },
    NoCurrentSession,
}

impl View for SessionError {
    type V = SessionErrorView;

    open spec fn view(&self) -> SessionErrorView {
        match self {
            SessionError::Malformed { line } => SessionErrorView::Malformed { line: line@ },
            SessionError::NoCurrentSession => SessionErrorView::NoCurrentSession,
        }
    }
}

/// The window that is addressed where none is given.
pub const FIRST_WINDOW: usize = 1;

/// The word by which the listing marks the session that the client is in.
pub open spec fn attached_marker() -> Seq<char> {
    "attached"@
}

/// The session's name in a line of the listing: what stands before the first
/// colon.  `None` where the line has no colon.
pub open spec fn name_in(line: Seq<char>) -> Option<Seq<char>> {
    let k = position(line, ':');
    if k < line.len() {
        Some(line.take(k))
    } else {
        None
    }
}

/// The name of a line, or the error that names the line.
pub open spec fn name_or_error(line: Seq<char>) -> Result<Seq<char>, SessionErrorView> {
    match name_in(line) {
        Some(name) => Ok(name),
        None => Err(SessionErrorView::Malformed { line }),
    }
}

/// The names in the lines of a listing, in order; the first line without a
/// colon is an error.
pub open spec fn names_in(ls: Seq<Seq<char>>) -> Result<Seq<Seq<char>>, SessionErrorView>
    decreases ls.len(),
{
    if ls.len() == 0 {
        Ok(Seq::empty())
    } else {
        match name_or_error(ls[0]) {
            Err(e) => Err(e),
            Ok(name) => match names_in(ls.skip(1)) {
                Err(e) => Err(e),
                Ok(rest) => Ok(seq![name] + rest),
            },
        }
    }
}

/// The name in the first line that holds the attached marker.
pub open spec fn attached_in(ls: Seq<Seq<char>>) -> Result<Seq<char>, SessionErrorView>
    decreases ls.len(),
{
    if ls.len() == 0 {
        Err(SessionErrorView::NoCurrentSession)
    } else if contains_text(ls[0], attached_marker()) {
        name_or_error(ls[0])
    } else {
        attached_in(ls.skip(1))
    }
}

/// The names of the running sessions that a listing shows.
pub open spec fn session_names(listing: Seq<char>) -> Result<Seq<Seq<char>>, SessionErrorView> {
    names_in(lines(listing))
}

/// The name of the session that a listing shows as attached.
pub open spec fn attached_session(listing: Seq<char>) -> Result<Seq<char>, SessionErrorView> {
    attached_in(lines(listing))
}

/// The value of a result that holds names.
pub open spec fn names_of(r: Result<Vec<String>, SessionError>) -> Result<
    Seq<Seq<char>>,
    SessionErrorView,
> {
    match r {
        Ok(v) => Ok(texts_of(v@)),
        Err(e) => Err(e@),
    }
}

/// The value of a result that holds one name.
pub open spec fn name_of(r: Result<String, SessionError>) -> Result<Seq<char>, SessionErrorView> {
    match r {
        Ok(s) => Ok(s@),
        Err(e) => Err(e@),
    }
}

/// The names found so far, followed by what the remaining lines give.
pub open spec fn names_then(
    done: Seq<Seq<char>>,
    rest: Result<Seq<Seq<char>>, SessionErrorView>,
) -> Result<Seq<Seq<char>>, SessionErrorView> {
    match rest {
        Ok(more) => Ok(done + more),
        Err(e) => Err(e),
    }
}

/// The command that moves the client to a window of a session; the first
/// window where none is given.
pub fn tmux_switch_client(target_session: &str, target_window: Option<usize>) -> (c: MuxCommand)
    ensures
        c@ == (MuxCommandView::SwitchClient {
            name: target_session@,
            index: match target_window {
                Some(w) => w as nat,
                None => 1,
            },
        }),
{
    let index = match target_window {
        Some(w) => w,
        None => FIRST_WINDOW,
    };
    MuxCommand::SwitchClient { name: target_session.to_owned(), index }
}

/// The command that ends a session.
pub fn tmux_kill_session(target_session: &str) -> (c: MuxCommand)
    ensures
        c@ == (MuxCommandView::KillSession { name: target_session@ }),
{
    MuxCommand::KillSession { name: target_session.to_owned() }
}

/// The command that shows a message.
pub fn tmux_display_message(message: &str) -> (c: MuxCommand)
    ensures
        c@ == (MuxCommandView::DisplayMessage { text: message@ }),
{
    MuxCommand::DisplayMessage { text: message.to_owned() }
}

/// The command that asks whether a session runs.
pub fn tmux_has_session(target_session: &str) -> (c: MuxCommand)
    ensures
        c@ == (MuxCommandView::HasSession { name: target_session@ }),
{
    MuxCommand::HasSession { name: target_session.to_owned() }
}

/// The lines of a session listing.
pub fn existing_sessions(listing: &str) -> (ls: Vec<String>)
    ensures
        texts_of(ls@) == lines(listing@),
{
    split_lines(listing)
}

/// The session's name in one line of the listing.
pub fn session_name(line: &str) -> (r: Result<String, SessionError>)
    ensures
        name_of(r) == name_or_error(line@),
{
    let chars = chars_of(line);
    let k = find_char(&chars, ':', 0);
    assert(chars@.skip(0) == chars@);
    if k < chars.len() {
        let name = slice_of(line, 0, k);
        Ok(name)
    } else {
        Err(SessionError::Malformed { line: line.to_owned() })
    }
}

/// The name of the session that the listing shows as attached: the name in
/// the first line that holds the word `attached`.
pub fn current_session(listing: &str) -> (r: Result<String, SessionError>)
    ensures
        name_of(r) == attached_session(listing@),
{
    let ls = split_lines(listing);
    let ghost all = texts_of(ls@);
    let mut i: usize = 0;
    assert(all.skip(0) == all);
    while i < ls.len()
        invariant
            i <= ls.len(),
            all == texts_of(ls@),
            all == lines(listing@),
            attached_in(all.skip(i as int)) == attached_in(all),
        decreases ls.len() - i,
    {
        assert(all.skip(i as int).skip(1) == all.skip(i + 1));
        if contains_str(ls[i].as_str(), "attached") {
            return session_name(ls[i].as_str());
        }
        i = i + 1;
    }
    Err(SessionError::NoCurrentSession)
}

/// The names of the running sessions, in the order of the listing.
pub fn existing_session_names(listing: &str) -> (r: Result<Vec<String>, SessionError>)
    ensures
        names_of(r) == session_names(listing@),
{
    let ls = split_lines(listing);
    let ghost all = texts_of(ls@);
    let mut out: Vec<String> = Vec::new();
    let mut i: usize = 0;
    assert(all.skip(0) == all);
    while i < ls.len()
        invariant
            i <= ls.len(),
            all == texts_of(ls@),
            all == lines(listing@),
            names_then(texts_of(out@), names_in(all.skip(i as int))) == names_in(all),
        decreases ls.len() - i,
    {
        assert(all.skip(i as int).skip(1) == all.skip(i + 1));
        let ghost done = texts_of(out@);
        match session_name(ls[i].as_str()) {
            Ok(name) => {
                proof {
                    assert(texts_of(out@.push(name)) == done.push(name@));
                    if let Ok(rest) = names_in(all.skip(i + 1)) {
                        assert(done + (seq![name@] + rest) == done.push(name@) + rest);
                    }
                }
                out.push(name);
            },
            Err(e) => {
                return Err(e);
            },
        }
        i = i + 1;
    }
    Ok(out)
}

} // verus!
