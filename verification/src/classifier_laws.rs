//! What classification guarantees of a consistent listing.

use crate::candidate::{CandidateView, Kind};
use crate::classifier::{
    classified, has_git_entry, is_repository, is_worktree, named_by_last_two, named_by_leaf,
    plain_roots, scan_child, scan_children, scan_entries, scan_entry, scan_roots, ChildDir,
    DirEntry, RootListing, ScanErrorView, SearchMode,
};
use crate::path::{
    is_segment, joined, last_two, leaf, lemma_last_two_of_joined, lemma_leaf_of_joined,
    without_leaf,
};
use vstd::prelude::*;

verus! {

/// Whether every entry can be named as a worktree: its path has two segments.
pub open spec fn entries_named(entries: Seq<DirEntry>) -> bool {
    forall|j: int| 0 <= j < entries.len() ==> last_two((#[trigger] entries[j]).path@) is Some
}

/// Whether the children are what one directory can hold: each has a name, and
/// no two have the same.
pub open spec fn children_named(children: Seq<ChildDir>) -> bool {
    &&& forall|i: int| 0 <= i < children.len() ==> leaf((#[trigger] children[i]).path@) is Some
    &&& forall|i: int, j: int|
        0 <= i < j < children.len() ==> leaf((#[trigger] children[i]).path@) != leaf(
            (#[trigger] children[j]).path@,
        )
}

/// Whether every entry of every child can be named as a worktree.
pub open spec fn all_entries_named(children: Seq<ChildDir>) -> bool {
    forall|i: int| 0 <= i < children.len() ==> entries_named((#[trigger] children[i]).entries@)
}

/// How many of the candidates bear the name.
pub open spec fn count_named(found: Seq<CandidateView>, name: Seq<char>) -> nat
    decreases found.len(),
{
    if found.len() == 0 {
        0
    } else {
        count_named(found.drop_last(), name) + if found.last().name == name {
            1nat
        } else {
            0nat
        }
    }
}

/// Counting distributes over concatenation.
pub proof fn lemma_count_add(a: Seq<CandidateView>, b: Seq<CandidateView>, name: Seq<char>)
    ensures
        count_named(a + b, name) == count_named(a, name) + count_named(b, name),
    decreases b.len(),
{
    if b.len() == 0 {
    } else {
        assert((a + b).drop_last() == a + b.drop_last());
        lemma_count_add(a, b.drop_last(), name);
    }
}

/// The scan of one root alone is the scan of its children.
pub proof fn lemma_single_root(root: RootListing, worktrees: bool)
    ensures
        scan_roots(seq![root], worktrees) == scan_children(root.children@, worktrees),
{
    let roots = seq![root];
    assert(scan_roots(roots.drop_last(), worktrees)->Ok_0 == Seq::<CandidateView>::empty());
}

/// In repository mode the first `m` children of a consistent listing yield,
/// under the name of a child that passes the repository test, exactly that
/// child, once it is among them.
proof fn lemma_repository_prefix(children: Seq<ChildDir>, i: int, m: int)
    requires
        children_named(children),
        0 <= i < children.len(),
        0 <= m <= children.len(),
        is_repository(children[i]),
    ensures
        scan_children(children.take(m), false) matches Ok(found) && {
            let name = leaf(children[i].path@)->0;
            let target = CandidateView::located(name, Kind::Repository, children[i].path@);
            &&& count_named(found, name) == (if i < m {
                1nat
            } else {
                0nat
            })
            &&& forall|k: int| 0 <= k < found.len() && (#[trigger] found[k]).name == name
                ==> found[k] == target
        },
    decreases m,
{
    let name = leaf(children[i].path@)->0;
    if m > 0 {
        lemma_repository_prefix(children, i, m - 1);
        assert(children.take(m).drop_last() == children.take(m - 1));
        let before = scan_children(children.take(m - 1), false)->Ok_0;
        let child = children[m - 1];
        let next = scan_child(child, false)->Ok_0;
        lemma_count_add(before, next, name);
        if is_repository(child) {
            assert(count_named(next.drop_last(), name) == 0);
        }
    }
}

/// A child that passes the repository test is found exactly once under its
/// own name, as a repository rooted at the child.
///
/// For a root whose children are what one directory can hold, and a child
/// among them that is a directory with an entry named `.git`: the scan of the
/// root in repository mode succeeds, one candidate among those found bears the
/// child's last segment as its name, and that candidate is the repository at
/// the child's path.
pub proof fn lemma_repository_found_once(root: RootListing, i: int)
    requires
        children_named(root.children@),
        0 <= i < root.children@.len(),
        is_repository(root.children@[i]),
    ensures
        scan_roots(seq![root], false) matches Ok(found) && {
            let child = root.children@[i];
            let name = leaf(child.path@)->0;
            &&& leaf(child.path@) is Some
            &&& count_named(found, name) == 1
            &&& forall|k: int| 0 <= k < found.len() && (#[trigger] found[k]).name == name
                ==> found[k] == CandidateView::located(name, Kind::Repository, child.path@)
        },
{
    lemma_single_root(root, false);
    lemma_repository_prefix(root.children@, i, root.children@.len() as int);
    assert(root.children@.take(root.children@.len() as int) == root.children@);
}

/// The worktrees among the first `m` entries that can all be named.
proof fn lemma_entries_prefix(entries: Seq<DirEntry>, j: int, m: int)
    requires
        entries_named(entries),
        0 <= j < entries.len(),
        0 <= m <= entries.len(),
        is_worktree(entries[j]),
    ensures
        scan_entries(entries.take(m)) matches Ok(found) && (j < m ==> found.contains(
            named_by_last_two(entries[j].path@)->Ok_0,
        )),
    decreases m,
{
    if m > 0 {
        lemma_entries_prefix(entries, j, m - 1);
        assert(entries.take(m).drop_last() == entries.take(m - 1));
        let before = scan_entries(entries.take(m - 1))->Ok_0;
        let next = scan_entry(entries[m - 1])->Ok_0;
        let target = named_by_last_two(entries[j].path@)->Ok_0;
        if j < m - 1 {
            let k = choose|k: int| 0 <= k < before.len() && before[k] == target;
            assert((before + next)[k] == target);
        } else if j == m - 1 {
            assert((before + next)[before.len() as int] == target);
        }
    }
}

/// In worktree mode the first `m` children of a consistent listing yield the
/// worktree of each entry that passes the worktree test below a child that is
/// a directory and no repository, once that child is among them.
proof fn lemma_worktree_prefix(children: Seq<ChildDir>, i: int, j: int, m: int)
    requires
        children_named(children),
        all_entries_named(children),
        0 <= i < children.len(),
        0 <= m <= children.len(),
        children[i].is_dir,
        !is_repository(children[i]),
        0 <= j < children[i].entries@.len(),
        is_worktree(children[i].entries@[j]),
    ensures
        scan_children(children.take(m), true) matches Ok(found) && (i < m ==> found.contains(
            named_by_last_two(children[i].entries@[j].path@)->Ok_0,
        )),
    decreases m,
{
    if m > 0 {
        lemma_worktree_prefix(children, i, j, m - 1);
        assert(children.take(m).drop_last() == children.take(m - 1));
        let child = children[m - 1];
        let before = scan_children(children.take(m - 1), true)->Ok_0;
        let target = named_by_last_two(children[i].entries@[j].path@)->Ok_0;
        if child.is_dir && !has_git_entry(child.entries@) {
            lemma_entries_ok(child.entries@, child.entries@.len() as int);
            assert(child.entries@.take(child.entries@.len() as int) == child.entries@);
        }
        let next = scan_child(child, true)->Ok_0;
        if i < m - 1 {
            let k = choose|k: int| 0 <= k < before.len() && before[k] == target;
            assert((before + next)[k] == target);
        } else if i == m - 1 {
            lemma_entries_prefix(child.entries@, j, child.entries@.len() as int);
            let k = choose|k: int| 0 <= k < next.len() && next[k] == target;
            assert((before + next)[before.len() + k] == target);
        }
    }
}

/// Entries that can all be named never stop a scan.
proof fn lemma_entries_ok(entries: Seq<DirEntry>, m: int)
    requires
        entries_named(entries),
        0 <= m <= entries.len(),
    ensures
        scan_entries(entries.take(m)) is Ok,
    decreases m,
{
    if m > 0 {
        lemma_entries_ok(entries, m - 1);
        assert(entries.take(m).drop_last() == entries.take(m - 1));
    }
}

/// An entry that passes the worktree test, below a child that is a directory
/// and does not pass the repository test, is found as a worktree named by
/// the last segment of its parent and its own, joined by a separator.
///
/// For a root whose children are what one directory can hold, with entries
/// whose paths have two segments each: the scan of the root in worktree mode
/// succeeds and holds a candidate of kind worktree whose path is the entry's
/// and whose name is made of the last two segments of that path.
pub proof fn lemma_worktree_found(root: RootListing, i: int, j: int)
    requires
        children_named(root.children@),
        all_entries_named(root.children@),
        0 <= i < root.children@.len(),
        root.children@[i].is_dir,
        !is_repository(root.children@[i]),
        0 <= j < root.children@[i].entries@.len(),
        is_worktree(root.children@[i].entries@[j]),
    ensures
        scan_roots(seq![root], true) matches Ok(found) && {
            let path = root.children@[i].entries@[j].path@;
            &&& leaf(without_leaf(path)) is Some
            &&& leaf(path) is Some
            &&& found.contains(
                CandidateView::located(
                    leaf(without_leaf(path))->0 + seq!['/'] + leaf(path)->0,
                    Kind::Worktree,
                    path,
                ),
            )
        },
{
    lemma_single_root(root, true);
    lemma_worktree_prefix(root.children@, i, j, root.children@.len() as int);
    assert(root.children@.take(root.children@.len() as int) == root.children@);
}

/// A repository at a root's child is named after the child: for the child
/// called `name` in the directory `root`, the candidate bears that name.
pub proof fn lemma_repository_name(root: Seq<char>, name: Seq<char>)
    requires
        is_segment(name),
    ensures
        named_by_leaf(joined(root, name), Kind::Repository) == Ok::<CandidateView, ScanErrorView>(
            CandidateView::located(name, Kind::Repository, joined(root, name)),
        ),
{
    lemma_leaf_of_joined(root, name);
}

/// A worktree is named after its parent and itself: for the entry called
/// `name` in the directory `parent`, the candidate bears the parent's last
/// segment, a separator and that name.
pub proof fn lemma_worktree_name(parent: Seq<char>, name: Seq<char>)
    requires
        is_segment(name),
        leaf(parent) is Some,
    ensures
        named_by_last_two(joined(parent, name)) == Ok::<CandidateView, ScanErrorView>(
            CandidateView::located(
                leaf(parent)->0 + seq!['/'] + name,
                Kind::Worktree,
                joined(parent, name),
            ),
        ),
{
    lemma_last_two_of_joined(parent, name);
}

/// Whether every candidate has a path and a kind that goes with one.
pub open spec fn all_located(found: Seq<CandidateView>) -> bool {
    forall|k: int|
        0 <= k < found.len() ==> (#[trigger] found[k]).path is Some && !(found[k].kind
            is LiveSession)
}

/// The worktrees among entries are located.
proof fn lemma_entries_located(entries: Seq<DirEntry>)
    ensures
        scan_entries(entries) matches Ok(found) ==> all_located(found),
    decreases entries.len(),
{
    if entries.len() > 0 {
        lemma_entries_located(entries.drop_last());
    }
}

/// What the children of a root yield is located.
proof fn lemma_children_located(children: Seq<ChildDir>, worktrees: bool)
    ensures
        scan_children(children, worktrees) matches Ok(found) ==> all_located(found),
    decreases children.len(),
{
    if children.len() > 0 {
        lemma_children_located(children.drop_last(), worktrees);
        lemma_entries_located(children.last().entries@);
    }
}

/// What the roots yield below them is located.
proof fn lemma_roots_located(roots: Seq<RootListing>, worktrees: bool)
    ensures
        scan_roots(roots, worktrees) matches Ok(found) ==> all_located(found),
    decreases roots.len(),
{
    if roots.len() > 0 {
        lemma_roots_located(roots.drop_last(), worktrees);
        lemma_children_located(roots.last().children@, worktrees);
    }
}

/// The roots taken as plain directories are located.
proof fn lemma_plain_located(roots: Seq<RootListing>)
    ensures
        plain_roots(roots) matches Ok(found) ==> all_located(found),
    decreases roots.len(),
{
    if roots.len() > 0 {
        lemma_plain_located(roots.drop_last());
    }
}

/// What classification finds is found on disk: every candidate has a path,
/// and none is a live session.
pub proof fn lemma_classified_located(roots: Seq<RootListing>, mode: SearchMode)
    ensures
        classified(roots, mode) matches Ok(found) ==> all_located(found),
{
    lemma_plain_located(roots);
    lemma_roots_located(roots, false);
    lemma_roots_located(roots, true);
}

} // verus!
