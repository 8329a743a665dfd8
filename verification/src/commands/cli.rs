//! The options of the command line that bear on the search.

use crate::classifier::SearchMode;
use vstd::prelude::*;

verus! {

/// What the `--git` option may be given as its value.
#[derive(Debug, Clone, Copy, PartialEq, Eq, Structural)]
pub enum GitMode {
    Worktrees,
}

/// The search mode that the options ask for: plain directories without
/// `--git`, repositories with it, and worktrees too where it says so.
pub open spec fn mode_of(git: bool, git_mode: Option<GitMode>) -> SearchMode {
    if !git {
        SearchMode::Dirs
    } else {
        match git_mode {
            Some(GitMode::Worktrees) => SearchMode::Worktrees,
            None => SearchMode::Repos,
        }
    }
}

/// The search mode that the options ask for.
pub fn search_mode(git: bool, git_mode: Option<&GitMode>) -> (mode: SearchMode)
    ensures
        mode == mode_of(
            git,
            match git_mode {
                Some(m) => Some(*m),
                None => None,
            },
        ),
{
    if !git {
        SearchMode::Dirs
    } else {
        match git_mode {
            Some(GitMode::Worktrees) => SearchMode::Worktrees,
            None => SearchMode::Repos,
        }
    }
}

} // verus!
