//! What merging and ordering guarantee.

use crate::candidate::CandidateView;
use crate::registry::{
    display_order, distinct_names, entry_named, in_display_order, inserted, lemma_entry_named,
    lemma_place, live_sessions, merged, place, rank, registry_of, shown_before,
};
use crate::order::{lemma_bytes_asymmetric, lemma_bytes_transitive, lemma_name_order};
use crate::text::bytes_of;
use vstd::prelude::*;
use vstd::seq_lib::to_multiset_insert;

verus! {

/// Looking a name up after one more entry was appended.
pub proof fn lemma_entry_named_push(es: Seq<CandidateView>, c: CandidateView, name: Seq<char>)
    ensures
        entry_named(es.push(c), name) == match entry_named(es, name) {
            Some(e) => Some(e),
            None => if c.name == name {
                Some(c)
            } else {
                None
            },
        },
    decreases es.len(),
{
    if es.len() == 0 {
    } else {
        assert(es.push(c)[0] == es[0]);
        assert(es.push(c).skip(1) == es.skip(1).push(c));
        lemma_entry_named_push(es.skip(1), c, name);
    }
}

/// An insertion keeps the names distinct.
pub proof fn lemma_inserted_distinct(es: Seq<CandidateView>, c: CandidateView)
    requires
        distinct_names(es),
    ensures
        distinct_names(inserted(es, c)),
{
    lemma_entry_named(es, c.name);
}

/// A name that is taken keeps its entry through an insertion, and the name of
/// the candidate is taken afterwards.
pub proof fn lemma_inserted_keeps(es: Seq<CandidateView>, c: CandidateView, name: Seq<char>)
    ensures
        entry_named(es, name) is Some ==> entry_named(inserted(es, c), name) == entry_named(
            es,
            name,
        ),
        entry_named(inserted(es, c), c.name) is Some,
{
    lemma_entry_named_push(es, c, name);
    lemma_entry_named_push(es, c, c.name);
}

/// First write wins: a name that is taken keeps its entry through a merge.
pub proof fn lemma_merge_keeps(es: Seq<CandidateView>, cs: Seq<CandidateView>, name: Seq<char>)
    requires
        entry_named(es, name) is Some,
    ensures
        entry_named(merged(es, cs), name) == entry_named(es, name),
    decreases cs.len(),
{
    if cs.len() > 0 {
        lemma_merge_keeps(es, cs.drop_last(), name);
        lemma_inserted_keeps(merged(es, cs.drop_last()), cs.last(), name);
    }
}

/// After a merge the name of every merged candidate is taken.
pub proof fn lemma_merge_holds(es: Seq<CandidateView>, cs: Seq<CandidateView>, k: int)
    requires
        0 <= k < cs.len(),
    ensures
        entry_named(merged(es, cs), cs[k].name) is Some,
    decreases cs.len(),
{
    let before = merged(es, cs.drop_last());
    if k < cs.len() - 1 {
        lemma_merge_holds(es, cs.drop_last(), k);
    }
    lemma_inserted_keeps(before, cs.last(), cs[k].name);
}

/// A merge keeps the names distinct.
pub proof fn lemma_merged_distinct(es: Seq<CandidateView>, cs: Seq<CandidateView>)
    requires
        distinct_names(es),
    ensures
        distinct_names(merged(es, cs)),
    decreases cs.len(),
{
    if cs.len() > 0 {
        lemma_merged_distinct(es, cs.drop_last());
        lemma_inserted_distinct(merged(es, cs.drop_last()), cs.last());
    }
}

/// Merging candidates whose names are all taken changes nothing.
pub proof fn lemma_merge_absorbed(es: Seq<CandidateView>, cs: Seq<CandidateView>)
    requires
        forall|k: int| 0 <= k < cs.len() ==> entry_named(es, (#[trigger] cs[k]).name) is Some,
    ensures
        merged(es, cs) == es,
    decreases cs.len(),
{
    if cs.len() > 0 {
        lemma_merge_absorbed(es, cs.drop_last());
    }
}

/// Merging is idempotent: merging the same candidates a second time changes
/// nothing, and no name occurs twice after either merge.
pub proof fn lemma_merge_idempotent(es: Seq<CandidateView>, cs: Seq<CandidateView>)
    requires
        distinct_names(es),
    ensures
        merged(merged(es, cs), cs) == merged(es, cs),
        distinct_names(merged(es, cs)),
{
    lemma_merged_distinct(es, cs);
    assert forall|k: int| 0 <= k < cs.len() implies entry_named(
        merged(es, cs),
        (#[trigger] cs[k]).name,
    ) is Some by {
        lemma_merge_holds(es, cs, k);
    }
    lemma_merge_absorbed(merged(es, cs), cs);
}

/// Whether every entry is a live session.
pub open spec fn all_live(es: Seq<CandidateView>) -> bool {
    forall|i: int| 0 <= i < es.len() ==> #[trigger] es[i] == CandidateView::live(es[i].name)
}

/// Merging live sessions into live sessions leaves live sessions only.
pub proof fn lemma_merged_live(es: Seq<CandidateView>, cs: Seq<CandidateView>)
    requires
        all_live(es),
        all_live(cs),
    ensures
        all_live(merged(es, cs)),
    decreases cs.len(),
{
    if cs.len() > 0 {
        lemma_merged_live(es, cs.drop_last());
    }
}

/// A live session is never shadowed: under the reserved default name, and
/// under the name of every running session, the registry holds the live
/// session, without a path, whatever the scan found under that name.
pub proof fn lemma_live_session_wins(
    default: Seq<char>,
    sessions: Seq<Seq<char>>,
    found: Seq<CandidateView>,
    name: Seq<char>,
)
    requires
        name == default || sessions.contains(name),
    ensures
        entry_named(registry_of(default, sessions, found), name) == Some(
            CandidateView::live(name),
        ),
{
    let first = seq![CandidateView::live(default)];
    let live = live_sessions(sessions);
    let running = merged(first, live);
    lemma_merged_live(first, live);
    if name == default {
        lemma_merge_keeps(first, live, name);
    } else {
        let k = choose|k: int| 0 <= k < sessions.len() && sessions[k] == name;
        lemma_merge_holds(first, live, k);
    }
    lemma_entry_named(running, name);
    lemma_merge_keeps(running, found, name);
}

/// Whether every entry is well formed: a live session without a path, any
/// other kind with one.
pub open spec fn all_wf(es: Seq<CandidateView>) -> bool {
    forall|i: int| 0 <= i < es.len() ==> (#[trigger] es[i]).wf()
}

/// Merging well-formed candidates into well-formed entries leaves
/// well-formed entries.
pub proof fn lemma_merged_wf(es: Seq<CandidateView>, cs: Seq<CandidateView>)
    requires
        all_wf(es),
        all_wf(cs),
    ensures
        all_wf(merged(es, cs)),
    decreases cs.len(),
{
    if cs.len() > 0 {
        lemma_merged_wf(es, cs.drop_last());
    }
}

/// The registry of one invocation is well formed where what the scan found
/// is: in each entry a path is absent for a live session and present for
/// every other kind.
pub proof fn lemma_registry_wf(
    default: Seq<char>,
    sessions: Seq<Seq<char>>,
    found: Seq<CandidateView>,
)
    requires
        all_wf(found),
    ensures
        all_wf(registry_of(default, sessions, found)),
        distinct_names(registry_of(default, sessions, found)),
{
    let first = seq![CandidateView::live(default)];
    let live = live_sessions(sessions);
    lemma_merged_wf(first, live);
    lemma_merged_wf(merged(first, live), found);
    lemma_merged_distinct(first, live);
    lemma_merged_distinct(merged(first, live), found);
}

/// Of two candidates at most one is shown before the other.
pub proof fn lemma_shown_asymmetric(a: CandidateView, b: CandidateView, default: Seq<char>)
    ensures
        !(shown_before(a, b, default) && shown_before(b, a, default)),
{
    lemma_bytes_asymmetric(bytes_of(a.name), bytes_of(b.name));
}

/// Being shown before is transitive.
pub proof fn lemma_shown_transitive(
    a: CandidateView,
    b: CandidateView,
    c: CandidateView,
    default: Seq<char>,
)
    requires
        shown_before(a, b, default),
        shown_before(b, c, default),
    ensures
        shown_before(a, c, default),
{
    if rank(a, default) == rank(b, default) && rank(b, default) == rank(c, default) {
        lemma_bytes_transitive(bytes_of(a.name), bytes_of(b.name), bytes_of(c.name));
    }
}

/// The display order is in display order: the reserved default session, then
/// the candidates without a path, then those with one, each group by name.
pub proof fn lemma_display_sorted(es: Seq<CandidateView>, default: Seq<char>)
    ensures
        in_display_order(display_order(es, default), default),
    decreases es.len(),
{
    if es.len() > 0 {
        let rest = display_order(es.drop_last(), default);
        let c = es.last();
        let p = place(rest, c, default);
        let out = rest.insert(p, c);
        lemma_display_sorted(es.drop_last(), default);
        lemma_place(rest, c, default);
        assert forall|i: int, j: int| 0 <= i < j < out.len() implies !shown_before(
            #[trigger] out[j],
            #[trigger] out[i],
            default,
        ) by {
            if i == p && shown_before(out[j], c, default) {
                if j - 1 == p {
                    lemma_shown_asymmetric(c, rest[p], default);
                } else {
                    lemma_shown_transitive(rest[j - 1], c, rest[p], default);
                }
            }
        }
    }
}

/// The display order holds the same candidates, each as often.
pub proof fn lemma_display_permutes(es: Seq<CandidateView>, default: Seq<char>)
    ensures
        display_order(es, default).to_multiset() == es.to_multiset(),
        display_order(es, default).len() == es.len(),
    decreases es.len(),
{
    if es.len() > 0 {
        let rest = display_order(es.drop_last(), default);
        let c = es.last();
        lemma_display_permutes(es.drop_last(), default);
        lemma_place(rest, c, default);
        to_multiset_insert(rest, place(rest, c, default), c);
        es.drop_last().to_multiset_ensures();
        assert(es.drop_last().push(c) == es);
    } else {
        assert(display_order(es, default) == es);
    }
}

/// Every entry of the display order is an entry of the registry.
pub proof fn lemma_display_holds(es: Seq<CandidateView>, default: Seq<char>, k: int)
    requires
        0 <= k < display_order(es, default).len(),
    ensures
        es.contains(display_order(es, default)[k]),
{
    let out = display_order(es, default);
    lemma_display_permutes(es, default);
    es.to_multiset_ensures();
    out.to_multiset_ensures();
    assert(es.to_multiset().count(out[k]) > 0);
}

/// The display order of distinct names holds distinct names.
pub proof fn lemma_display_distinct(es: Seq<CandidateView>, default: Seq<char>)
    requires
        distinct_names(es),
    ensures
        distinct_names(display_order(es, default)),
    decreases es.len(),
{
    if es.len() > 0 {
        let before = es.drop_last();
        let rest = display_order(before, default);
        let c = es.last();
        lemma_display_distinct(before, default);
        lemma_place(rest, c, default);
        assert forall|k: int| 0 <= k < rest.len() implies (#[trigger] rest[k]).name != c.name by {
            lemma_display_holds(before, default, k);
        }
    }
}

/// The display order is fixed by the names: of two entries of a registry the
/// earlier is shown strictly before the later, so no other arrangement of
/// the same entries is in display order.
pub proof fn lemma_display_strict(es: Seq<CandidateView>, default: Seq<char>)
    requires
        distinct_names(es),
    ensures
        forall|i: int, j: int|
            0 <= i < j < display_order(es, default).len() ==> shown_before(
                #[trigger] display_order(es, default)[i],
                #[trigger] display_order(es, default)[j],
                default,
            ),
{
    let out = display_order(es, default);
    lemma_display_sorted(es, default);
    lemma_display_distinct(es, default);
    assert forall|i: int, j: int| 0 <= i < j < out.len() implies shown_before(
        #[trigger] out[i],
        #[trigger] out[j],
        default,
    ) by {
        lemma_name_order(out[i].name, out[j].name);
    }
}

/// The reserved default session is shown first, whatever its path and
/// wherever its name stands in the alphabet.
pub proof fn lemma_default_first(es: Seq<CandidateView>, default: Seq<char>)
    requires
        entry_named(es, default) is Some,
    ensures
        display_order(es, default).len() > 0,
        display_order(es, default)[0].name == default,
        distinct_names(es) ==> Some(display_order(es, default)[0]) == entry_named(es, default),
{
    lemma_default_first_name(es, default);
    if distinct_names(es) {
        let out = display_order(es, default);
        lemma_display_holds(es, default, 0);
        lemma_entry_named(es, default);
        let m = choose|m: int| 0 <= m < es.len() && es[m] == out[0];
        let d = entry_named(es, default)->0;
        let i = choose|i: int| 0 <= i < es.len() && es[i] == d;
    }
}

/// The first entry of the display order bears the reserved name.
proof fn lemma_default_first_name(es: Seq<CandidateView>, default: Seq<char>)
    requires
        entry_named(es, default) is Some,
    ensures
        display_order(es, default).len() > 0,
        display_order(es, default)[0].name == default,
{
    let out = display_order(es, default);
    let d = entry_named(es, default)->0;
    lemma_entry_named(es, default);
    lemma_display_permutes(es, default);
    lemma_display_sorted(es, default);
    es.to_multiset_ensures();
    out.to_multiset_ensures();
    assert(out.to_multiset().count(d) > 0);
}

} // verus!
