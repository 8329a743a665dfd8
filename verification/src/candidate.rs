//! The unit of selection: a named target that a session can be opened for.

use vstd::prelude::*;

verus! {

/// What a candidate stands for.
#[derive(Clone, Copy, Debug, PartialEq, Eq, Structural)]
pub enum Kind {
    /// A session that the multiplexer already runs (or the reserved default).
    LiveSession,
    /// A configured root, taken as it is.
    Directory,
    /// A directory that holds an entry named `.git`.
    Repository,
    /// A working tree below a directory that is no repository itself.
    Worktree,
}

/// One selectable entry.
#[derive(Debug, PartialEq, Eq)]
pub struct Candidate {
    /// The key under which the candidate is offered and found again.
    pub name: String,
    pub kind: Kind,
    /// Where a new session would be rooted; a live session carries none.
    pub path: Option<String>,
}

/// The mathematical value of a [`Candidate`].
pub ghost struct CandidateView {
    pub name: Seq<char>,
    pub kind: Kind,
    pub path: Option<Seq<char>>,
}

impl CandidateView {
    /// A live session has no path, every other kind has one.
    pub open spec fn wf(self) -> bool {
        self.kind is LiveSession <==> self.path is None
    }

    /// The live session of that name.
    pub open spec fn live(name: Seq<char>) -> CandidateView {
        CandidateView { name, kind: Kind::LiveSession, path: None }
    }

    /// The candidate of that name and kind at that path.
    pub open spec fn located(name: Seq<char>, kind: Kind, path: Seq<char>) -> CandidateView {
        CandidateView { name, kind, path: Some(path) }
    }
}

/// The value of an optional string.
pub open spec fn text_of(s: Option<String>) -> Option<Seq<char>> {
    match s {
        Some(t) => Some(t@),
        None => None,
    }
}

impl View for Candidate {
    type V = CandidateView;

    open spec fn view(&self) -> CandidateView {
        CandidateView { name: self.name@, kind: self.kind, path: text_of(self.path) }
    }
}

/// The values of a sequence of candidates, in order.
pub open spec fn views_of(cs: Seq<Candidate>) -> Seq<CandidateView> {
    cs.map_values(|c: Candidate| c@)
}

/// A copy of an optional string.
pub fn copy_text(s: &Option<String>) -> (r: Option<String>)
    ensures
        text_of(r) == text_of(*s),
{
    match s {
        Some(t) => Some(t.clone()),
        None => None,
    }
}

impl Candidate {
    /// A candidate for a session of the multiplexer.
    pub fn live(name: String) -> (c: Candidate)
        ensures
            c@ == CandidateView::live(name@),
            c@.wf(),
    {
        Candidate { name, kind: Kind::LiveSession, path: None }
    }

    /// A candidate found on disk.
    pub fn located(name: String, kind: Kind, path: String) -> (c: Candidate)
        ensures
            c@ == CandidateView::located(name@, kind, path@),
            !(kind is LiveSession) ==> c@.wf(),
    {
        Candidate { name, kind, path: Some(path) }
    }

    /// Whether the candidate is a live session.
    pub fn is_live(&self) -> (b: bool)
        ensures
            b == (self@.kind is LiveSession),
    {
        match self.kind {
            Kind::LiveSession => true,
            _ => false,
        }
    }
}

impl Clone for Candidate {
    fn clone(&self) -> (c: Candidate)
        ensures
            c@ == self@,
    {
        Candidate { name: self.name.clone(), kind: self.kind, path: copy_text(&self.path) }
    }
}

} // verus!
