//! Classification of directory listings into candidates.
//!
//! The caller reads the directories; a [`RootListing`] is what it saw under
//! one configured root.  Classification itself reads nothing.
//!
//! A root is looked at two levels deep.  A child of the root that is a
//! directory and holds an entry named `.git` is a repository.  Below a child
//! that is a directory and no repository, each entry that is a directory in
//! which `.git` exists is a worktree; whether that `.git` is a file or a
//! directory is not asked.  In plain-directory mode the root itself is the
//! candidate and nothing below it is looked at.

use crate::candidate::{views_of, Candidate, CandidateView, Kind};
use crate::path::{last_two, last_two_segments, leaf, leaf_name};
use crate::text::same_text;
use vstd::prelude::*;

verus! {

/// An entry of a directory that lies directly below a root.
#[derive(Debug)]
pub struct DirEntry {
    /// The file name of the entry.
    pub name: String,
    /// The path of the entry.
    pub path: String,
    pub is_dir: bool,
    /// Whether something named `.git` exists directly inside the entry.
    pub has_git: bool,
}

/// An immediate child of a root, with what it holds.
#[derive(Debug)]
pub struct ChildDir {
    pub path: String,
    pub is_dir: bool,
    /// The entries of the child; empty for a child that is no directory.
    pub entries: Vec<DirEntry>,
}

/// A configured root, resolved, with its immediate children.
#[derive(Debug)]
pub struct RootListing {
    /// The resolved, absolute path of the root.
    pub path: String,
    pub children: Vec<ChildDir>,
}

/// Which passes of the classifier run.
#[derive(Clone, Copy, Debug, PartialEq, Eq, Structural)]
pub enum SearchMode {
    /// The plain directories, then the repositories and worktrees.
    All,
    /// Each root as a plain directory.
    Dirs,
    /// The repositories below each root.
    Repos,
    /// The repositories and the worktrees below each root.
    Worktrees,
}

/// Why a scan stopped.  Each variant carries the offending path.
#[derive(Debug, PartialEq, Eq)]
pub enum ScanError {
    /// The path has no last segment to name a candidate by.
    MissingName { path: String },
    /// The path has a last segment but none before it.
    MissingBase { path: String },
}

/// The mathematical value of a [`ScanError`].
pub ghost enum ScanErrorView {
    MissingName { path: Seq<char> },
    MissingBase { path: Seq<char> },
}

impl View for ScanError {
    type V = ScanErrorView;

    open spec fn view(&self) -> ScanErrorView {
        match self {
            ScanError::MissingName { path } => ScanErrorView::MissingName { path: path@ },
            ScanError::MissingBase { path } => ScanErrorView::MissingBase { path: path@ },
        }
    }
}

/// What a scan yields: the candidates in the order found, or the first error.
pub type Found = Result<Seq<CandidateView>, ScanErrorView>;

/// The name that marks a repository.
pub open spec fn git_marker() -> Seq<char> {
    seq!['.', 'g', 'i', 't']
}

/// Whether a child holds an entry named `.git`.
pub open spec fn has_git_entry(entries: Seq<DirEntry>) -> bool {
    exists|i: int| 0 <= i < entries.len() && (#[trigger] entries[i]).name@ == git_marker()
}

/// The repository test: a directory that directly holds an entry named `.git`,
/// be that entry a file or a directory.
pub open spec fn is_repository(child: ChildDir) -> bool {
    child.is_dir && has_git_entry(child.entries@)
}

/// The worktree test on an entry of a child: a directory in which `.git`
/// exists.
pub open spec fn is_worktree(entry: DirEntry) -> bool {
    entry.is_dir && entry.has_git
}

/// The candidate for a directory taken as it is, named by its last segment.
pub open spec fn named_by_leaf(path: Seq<char>, kind: Kind) -> Result<
    CandidateView,
    ScanErrorView,
> {
    match leaf(path) {
        Some(name) => Ok(CandidateView::located(name, kind, path)),
        None => Err(ScanErrorView::MissingName { path }),
    }
}

/// The candidate for a worktree, named by the last two segments of its path.
pub open spec fn named_by_last_two(path: Seq<char>) -> Result<CandidateView, ScanErrorView> {
    match last_two(path) {
        Some(name) => Ok(CandidateView::located(name, Kind::Worktree, path)),
        None => if leaf(path) is None {
            Err(ScanErrorView::MissingName { path })
        } else {
            Err(ScanErrorView::MissingBase { path })
        },
    }
}

/// A sequence of one candidate, or the error.
pub open spec fn single(c: Result<CandidateView, ScanErrorView>) -> Found {
    match c {
        Ok(c) => Ok(seq![c]),
        Err(e) => Err(e),
    }
}

/// What was found so far, followed by what comes next; the earlier error wins.
pub open spec fn followed_by(found: Found, next: Found) -> Found {
    match found {
        Err(e) => Err(e),
        Ok(a) => match next {
            Err(e) => Err(e),
            Ok(b) => Ok(a + b),
        },
    }
}

/// The worktree candidate of one entry, if the entry passes the worktree test.
pub open spec fn scan_entry(entry: DirEntry) -> Found {
    if is_worktree(entry) {
        single(named_by_last_two(entry.path@))
    } else {
        Ok(Seq::empty())
    }
}

/// The worktree candidates among the entries of a child, in order.
pub open spec fn scan_entries(entries: Seq<DirEntry>) -> Found
    decreases entries.len(),
{
    if entries.len() == 0 {
        Ok(Seq::empty())
    } else {
        followed_by(scan_entries(entries.drop_last()), scan_entry(entries.last()))
    }
}

/// What one child of a root yields: itself as a repository where it passes the
/// repository test; otherwise, where worktrees are asked for, the worktrees
/// among its entries.
pub open spec fn scan_child(child: ChildDir, worktrees: bool) -> Found {
    if is_repository(child) {
        single(named_by_leaf(child.path@, Kind::Repository))
    } else if child.is_dir && worktrees {
        scan_entries(child.entries@)
    } else {
        Ok(Seq::empty())
    }
}

/// What the children of a root yield, in order.
pub open spec fn scan_children(children: Seq<ChildDir>, worktrees: bool) -> Found
    decreases children.len(),
{
    if children.len() == 0 {
        Ok(Seq::empty())
    } else {
        followed_by(
            scan_children(children.drop_last(), worktrees),
            scan_child(children.last(), worktrees),
        )
    }
}

/// What a sequence of roots yields in repository mode (`worktrees` false) or
/// worktree mode (`worktrees` true), in order.
pub open spec fn scan_roots(roots: Seq<RootListing>, worktrees: bool) -> Found
    decreases roots.len(),
{
    if roots.len() == 0 {
        Ok(Seq::empty())
    } else {
        followed_by(
            scan_roots(roots.drop_last(), worktrees),
            scan_children(roots.last().children@, worktrees),
        )
    }
}

/// What a sequence of roots yields in plain-directory mode: one candidate for
/// each root, named by the root's own last segment.
pub open spec fn plain_roots(roots: Seq<RootListing>) -> Found
    decreases roots.len(),
{
    if roots.len() == 0 {
        Ok(Seq::empty())
    } else {
        followed_by(
            plain_roots(roots.drop_last()),
            single(named_by_leaf(roots.last().path@, Kind::Directory)),
        )
    }
}

/// What the roots yield in a search mode.
pub open spec fn classified(roots: Seq<RootListing>, mode: SearchMode) -> Found {
    match mode {
        SearchMode::Dirs => plain_roots(roots),
        SearchMode::Repos => scan_roots(roots, false),
        SearchMode::Worktrees => scan_roots(roots, true),
        SearchMode::All => followed_by(plain_roots(roots), scan_roots(roots, true)),
    }
}

/// Whether a search mode looks below the roots.
pub open spec fn descends(mode: SearchMode) -> bool {
    !(mode is Dirs)
}

/// An error among the first `n` entries is the error of the whole scan.
pub proof fn lemma_entries_error_stays(entries: Seq<DirEntry>, n: int)
    requires
        0 <= n <= entries.len(),
        scan_entries(entries.take(n)) is Err,
    ensures
        scan_entries(entries) == scan_entries(entries.take(n)),
    decreases entries.len() - n,
{
    if n < entries.len() {
        assert(entries.take(n + 1).drop_last() == entries.take(n));
        lemma_entries_error_stays(entries, n + 1);
    } else {
        assert(entries.take(n) == entries);
    }
}

/// An error among the first `n` children is the error of the whole scan.
pub proof fn lemma_children_error_stays(children: Seq<ChildDir>, worktrees: bool, n: int)
    requires
        0 <= n <= children.len(),
        scan_children(children.take(n), worktrees) is Err,
    ensures
        scan_children(children, worktrees) == scan_children(children.take(n), worktrees),
    decreases children.len() - n,
{
    if n < children.len() {
        assert(children.take(n + 1).drop_last() == children.take(n));
        lemma_children_error_stays(children, worktrees, n + 1);
    } else {
        assert(children.take(n) == children);
    }
}

/// An error among the first `n` roots is the error of the whole scan.
pub proof fn lemma_roots_error_stays(roots: Seq<RootListing>, worktrees: bool, n: int)
    requires
        0 <= n <= roots.len(),
        scan_roots(roots.take(n), worktrees) is Err,
    ensures
        scan_roots(roots, worktrees) == scan_roots(roots.take(n), worktrees),
    decreases roots.len() - n,
{
    if n < roots.len() {
        assert(roots.take(n + 1).drop_last() == roots.take(n));
        lemma_roots_error_stays(roots, worktrees, n + 1);
    } else {
        assert(roots.take(n) == roots);
    }
}

/// An error among the first `n` roots is the error of the whole plain scan.
pub proof fn lemma_plain_error_stays(roots: Seq<RootListing>, n: int)
    requires
        0 <= n <= roots.len(),
        plain_roots(roots.take(n)) is Err,
    ensures
        plain_roots(roots) == plain_roots(roots.take(n)),
    decreases roots.len() - n,
{
    if n < roots.len() {
        assert(roots.take(n + 1).drop_last() == roots.take(n));
        lemma_plain_error_stays(roots, n + 1);
    } else {
        assert(roots.take(n) == roots);
    }
}

/// The value of what a scan returned.
pub open spec fn found_of(r: Result<Vec<Candidate>, ScanError>) -> Found {
    match r {
        Ok(v) => Ok(views_of(v@)),
        Err(e) => Err(e@),
    }
}

/// The value of what naming one candidate returned.
pub open spec fn named_of(r: Result<Candidate, ScanError>) -> Result<
    CandidateView,
    ScanErrorView,
> {
    match r {
        Ok(c) => Ok(c@),
        Err(e) => Err(e@),
    }
}

/// Whether the entries hold one named `.git`.
pub fn holds_git_entry(entries: &Vec<DirEntry>) -> (b: bool)
    ensures
        b == has_git_entry(entries@),
{
    let mut i: usize = 0;
    while i < entries.len()
        invariant
            i <= entries.len(),
            forall|k: int| 0 <= k < i ==> (#[trigger] entries@[k]).name@ != git_marker(),
        decreases entries.len() - i,
    {
        proof {
            reveal_strlit(".git");
            assert(".git"@ =~= git_marker());
        }
        if same_text(entries[i].name.as_str(), ".git") {
            return true;
        }
        i = i + 1;
    }
    false
}

/// The candidate of the given kind for `path`, named by the path's last
/// segment.
pub fn candidate_by_leaf(path: &String, kind: Kind) -> (r: Result<Candidate, ScanError>)
    ensures
        named_of(r) == named_by_leaf(path@, kind),
{
    match leaf_name(path.as_str()) {
        Some(name) => Ok(Candidate::located(name, kind, path.clone())),
        None => Err(ScanError::MissingName { path: path.clone() }),
    }
}

/// The worktree candidate for `path`, named by the path's last two segments.
pub fn candidate_by_last_two(path: &String) -> (r: Result<Candidate, ScanError>)
    ensures
        named_of(r) == named_by_last_two(path@),
{
    match last_two_segments(path.as_str()) {
        Some(name) => Ok(Candidate::located(name, Kind::Worktree, path.clone())),
        None => match leaf_name(path.as_str()) {
            None => Err(ScanError::MissingName { path: path.clone() }),
            Some(_) => Err(ScanError::MissingBase { path: path.clone() }),
        },
    }
}

/// Appends the worktree candidates among `entries` to `out`.
fn collect_worktrees(entries: &Vec<DirEntry>, out: &mut Vec<Candidate>) -> (r: Result<
    (),
    ScanError,
>)
    ensures
        match scan_entries(entries@) {
            Ok(found) => r is Ok && views_of(final(out)@) == views_of(old(out)@) + found,
            Err(e) => r matches Err(x) && x@ == e,
        },
{
    let ghost before = views_of(out@);
    let mut i: usize = 0;
    while i < entries.len()
        invariant
            i <= entries.len(),
            scan_entries(entries@.take(i as int)) matches Ok(found) && views_of(out@) == before
                + found,
        decreases entries.len() - i,
    {
        proof {
            assert(entries@.take(i + 1).drop_last() == entries@.take(i as int));
        }
        let entry = &entries[i];
        if entry.is_dir && entry.has_git {
            match candidate_by_last_two(&entry.path) {
                Ok(c) => {
                    proof {
                        assert(views_of(out@.push(c)) == views_of(out@).push(c@));
                    }
                    out.push(c);
                },
                Err(e) => {
                    proof {
                        lemma_entries_error_stays(entries@, i + 1);
                    }
                    return Err(e);
                },
            }
        }
        i = i + 1;
    }
    proof {
        assert(entries@.take(i as int) == entries@);
    }
    Ok(())
}

/// Appends what one child of a root yields to `out`.
fn collect_child(child: &ChildDir, worktrees: bool, out: &mut Vec<Candidate>) -> (r: Result<
    (),
    ScanError,
>)
    ensures
        match scan_child(*child, worktrees) {
            Ok(found) => r is Ok && views_of(final(out)@) == views_of(old(out)@) + found,
            Err(e) => r matches Err(x) && x@ == e,
        },
{
    if !child.is_dir {
        Ok(())
    } else if holds_git_entry(&child.entries) {
        match candidate_by_leaf(&child.path, Kind::Repository) {
            Ok(c) => {
                out.push(c);
                Ok(())
            },
            Err(e) => Err(e),
        }
    } else if worktrees {
        collect_worktrees(&child.entries, out)
    } else {
        Ok(())
    }
}

/// Appends what the children of a root yield to `out`.
fn collect_children(children: &Vec<ChildDir>, worktrees: bool, out: &mut Vec<Candidate>) -> (r:
    Result<(), ScanError>)
    ensures
        match scan_children(children@, worktrees) {
            Ok(found) => r is Ok && views_of(final(out)@) == views_of(old(out)@) + found,
            Err(e) => r matches Err(x) && x@ == e,
        },
{
    let ghost before = views_of(out@);
    let mut i: usize = 0;
    while i < children.len()
        invariant
            i <= children.len(),
            scan_children(children@.take(i as int), worktrees) matches Ok(found) && views_of(out@)
                == before + found,
        decreases children.len() - i,
    {
        proof {
            assert(children@.take(i + 1).drop_last() == children@.take(i as int));
        }
        match collect_child(&children[i], worktrees, out) {
            Ok(()) => {},
            Err(e) => {
                proof {
                    lemma_children_error_stays(children@, worktrees, i + 1);
                }
                return Err(e);
            },
        }
        i = i + 1;
    }
    proof {
        assert(children@.take(i as int) == children@);
    }
    Ok(())
}

/// Repository mode and worktree mode over the configured roots, in order.
///
/// Each child of a root that is a directory and holds an entry named `.git`
/// yields a repository, named by the child's last segment.  With `worktrees`
/// set, each other child that is a directory yields a worktree for each of its
/// entries that is a directory in which `.git` exists, named by the last two
/// segments of the entry's path.  The first path that cannot name a candidate
/// ends the scan with its error.
pub fn get_repos(roots: &Vec<RootListing>, worktrees: bool) -> (r: Result<
    Vec<Candidate>,
    ScanError,
>)
    ensures
        found_of(r) == scan_roots(roots@, worktrees),
{
    let mut out: Vec<Candidate> = Vec::new();
    assert(views_of(out@) == Seq::<CandidateView>::empty());
    let mut i: usize = 0;
    while i < roots.len()
        invariant
            i <= roots.len(),
            scan_roots(roots@.take(i as int), worktrees) == Ok::<
                Seq<CandidateView>,
                ScanErrorView,
            >(views_of(out@)),
        decreases roots.len() - i,
    {
        proof {
            assert(roots@.take(i + 1).drop_last() == roots@.take(i as int));
        }
        match collect_children(&roots[i].children, worktrees, &mut out) {
            Ok(()) => {},
            Err(e) => {
                proof {
                    lemma_roots_error_stays(roots@, worktrees, i + 1);
                }
                return Err(e);
            },
        }
        i = i + 1;
    }
    proof {
        assert(roots@.take(i as int) == roots@);
    }
    Ok(out)
}

/// Plain-directory mode over the configured roots, in order: one candidate
/// for each root, named by the root's own last segment and rooted at the
/// root.  No child is looked at.  The first root without a last segment ends
/// the scan with its error.
pub fn get_directories(roots: &Vec<RootListing>) -> (r: Result<Vec<Candidate>, ScanError>)
    ensures
        found_of(r) == plain_roots(roots@),
{
    let mut out: Vec<Candidate> = Vec::new();
    assert(views_of(out@) == Seq::<CandidateView>::empty());
    let mut i: usize = 0;
    while i < roots.len()
        invariant
            i <= roots.len(),
            plain_roots(roots@.take(i as int)) == Ok::<Seq<CandidateView>, ScanErrorView>(
                views_of(out@),
            ),
        decreases roots.len() - i,
    {
        proof {
            assert(roots@.take(i + 1).drop_last() == roots@.take(i as int));
        }
        match candidate_by_leaf(&roots[i].path, Kind::Directory) {
            Ok(c) => {
                proof {
                    assert(views_of(out@.push(c)) == views_of(out@) + seq![c@]);
                }
                out.push(c);
            },
            Err(e) => {
                proof {
                    lemma_plain_error_stays(roots@, i + 1);
                }
                return Err(e);
            },
        }
        i = i + 1;
    }
    proof {
        assert(roots@.take(i as int) == roots@);
    }
    Ok(out)
}

/// The candidates that the roots yield in a search mode, in the order of
/// the passes and, within a pass, of the listing.
pub fn classify(roots: &Vec<RootListing>, mode: SearchMode) -> (r: Result<
    Vec<Candidate>,
    ScanError,
>)
    ensures
        found_of(r) == classified(roots@, mode),
{
    match mode {
        SearchMode::Dirs => get_directories(roots),
        SearchMode::Repos => get_repos(roots, false),
        SearchMode::Worktrees => get_repos(roots, true),
        SearchMode::All => {
            let mut plain = match get_directories(roots) {
                Ok(v) => v,
                Err(e) => {
                    return Err(e);
                },
            };
            let mut below = match get_repos(roots, true) {
                Ok(v) => v,
                Err(e) => {
                    return Err(e);
                },
            };
            assert(views_of(plain@ + below@) == views_of(plain@) + views_of(below@));
            plain.append(&mut below);
            Ok(plain)
        },
    }
}

/// Whether a search mode looks below the roots, so that their children have
/// to be read.
pub fn needs_children(mode: SearchMode) -> (b: bool)
    ensures
        b == descends(mode),
{
    match mode {
        SearchMode::Dirs => false,
        _ => true,
    }
}

} // verus!
