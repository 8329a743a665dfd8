//! The registry: the candidates of one invocation, keyed by name.
//!
//! A name that was inserted first is never replaced by a later insertion, so
//! a live session cannot be shadowed by a directory of the same name.

use crate::candidate::{views_of, Candidate, CandidateView};
use crate::order::{name_before, precedes};
use crate::registry_laws::{lemma_default_first, lemma_display_permutes, lemma_display_sorted};
use crate::text::{same_text, texts_of};
use vstd::prelude::*;
use vstd::string::*;

verus! {

/// The first entry that bears the name, if any does.
pub open spec fn entry_named(es: Seq<CandidateView>, name: Seq<char>) -> Option<CandidateView>
    decreases es.len(),
{
    if es.len() == 0 {
        None
    } else if es[0].name == name {
        Some(es[0])
    } else {
        entry_named(es.skip(1), name)
    }
}

/// Whether no two entries bear the same name.
pub open spec fn distinct_names(es: Seq<CandidateView>) -> bool {
    forall|i: int, j: int|
        0 <= i < j < es.len() ==> (#[trigger] es[i]).name != (#[trigger] es[j]).name
}

/// The entries after one insertion: unchanged where the name is taken, the
/// candidate appended where it is not.
pub open spec fn inserted(es: Seq<CandidateView>, c: CandidateView) -> Seq<CandidateView> {
    if entry_named(es, c.name) is Some {
        es
    } else {
        es.push(c)
    }
}

/// The entries after the candidates were inserted one by one, in order.
pub open spec fn merged(es: Seq<CandidateView>, cs: Seq<CandidateView>) -> Seq<CandidateView>
    decreases cs.len(),
{
    if cs.len() == 0 {
        es
    } else {
        inserted(merged(es, cs.drop_last()), cs.last())
    }
}

/// The live-session candidates for a sequence of session names.
pub open spec fn live_sessions(names: Seq<Seq<char>>) -> Seq<CandidateView> {
    names.map_values(|n: Seq<char>| CandidateView::live(n))
}

/// The registry of one invocation: the reserved default session first, then
/// the running sessions, then what the scan found.
pub open spec fn registry_of(
    default: Seq<char>,
    sessions: Seq<Seq<char>>,
    found: Seq<CandidateView>,
) -> Seq<CandidateView> {
    merged(merged(seq![CandidateView::live(default)], live_sessions(sessions)), found)
}

/// The group that a candidate is shown in: the reserved default session,
/// then the candidates without a path, then those with one.
pub open spec fn rank(c: CandidateView, default: Seq<char>) -> int {
    if c.name == default {
        0
    } else if c.path is None {
        1
    } else {
        2
    }
}

/// Whether `a` is shown strictly before `b`: by group, then by name,
/// byte-wise ascending.
pub open spec fn shown_before(a: CandidateView, b: CandidateView, default: Seq<char>) -> bool {
    rank(a, default) < rank(b, default) || (rank(a, default) == rank(b, default) && name_before(
        a.name,
        b.name,
    ))
}

/// Whether no entry is shown before an earlier one.
pub open spec fn in_display_order(es: Seq<CandidateView>, default: Seq<char>) -> bool {
    forall|i: int, j: int|
        0 <= i < j < es.len() ==> !shown_before(#[trigger] es[j], #[trigger] es[i], default)
}

/// Where a candidate goes among entries in display order: before the first
/// entry that it is shown before, at the end where there is none.
pub open spec fn place(es: Seq<CandidateView>, c: CandidateView, default: Seq<char>) -> int
    decreases es.len(),
{
    if es.len() == 0 {
        0
    } else if shown_before(c, es[0], default) {
        0
    } else {
        1 + place(es.skip(1), c, default)
    }
}

/// The entries in display order.
pub open spec fn display_order(es: Seq<CandidateView>, default: Seq<char>) -> Seq<CandidateView>
    decreases es.len(),
{
    if es.len() == 0 {
        Seq::empty()
    } else {
        let rest = display_order(es.drop_last(), default);
        rest.insert(place(rest, es.last(), default), es.last())
    }
}

/// `entry_named` finds the first index that bears the name.
pub proof fn lemma_entry_named(es: Seq<CandidateView>, name: Seq<char>)
    ensures
        match entry_named(es, name) {
            Some(c) => exists|i: int|
                0 <= i < es.len() && es[i] == c && c.name == name && forall|k: int|
                    0 <= k < i ==> (#[trigger] es[k]).name != name,
            None => forall|k: int| 0 <= k < es.len() ==> (#[trigger] es[k]).name != name,
        },
    decreases es.len(),
{
    if es.len() > 0 && es[0].name != name {
        lemma_entry_named(es.skip(1), name);
        match entry_named(es, name) {
            Some(c) => {
                let i = choose|i: int|
                    0 <= i < es.skip(1).len() && es.skip(1)[i] == c && c.name == name && forall|
                        k: int,
                    |
                        0 <= k < i ==> (#[trigger] es.skip(1)[k]).name != name;
                assert forall|k: int| 0 <= k < i + 1 implies (#[trigger] es[k]).name != name by {
                    if k > 0 {
                        assert(es.skip(1)[k - 1] == es[k]);
                    }
                }
            },
            None => {
                assert forall|k: int| 0 <= k < es.len() implies (#[trigger] es[k]).name
                    != name by {
                    if k > 0 {
                        assert(es.skip(1)[k - 1] == es[k]);
                    }
                }
            },
        }
    }
}

/// `place` is the first index whose entry the candidate is shown before.
pub proof fn lemma_place(es: Seq<CandidateView>, c: CandidateView, default: Seq<char>)
    ensures
        0 <= place(es, c, default) <= es.len(),
        place(es, c, default) < es.len() ==> shown_before(c, es[place(es, c, default)], default),
        forall|k: int|
            0 <= k < place(es, c, default) ==> !shown_before(c, #[trigger] es[k], default),
    decreases es.len(),
{
    if es.len() > 0 && !shown_before(c, es[0], default) {
        lemma_place(es.skip(1), c, default);
        assert forall|k: int| 0 <= k < place(es, c, default) implies !shown_before(
            c,
            #[trigger] es[k],
            default,
        ) by {
            if k > 0 {
                assert(es.skip(1)[k - 1] == es[k]);
            }
        }
    }
}

/// An index with these two properties is `place`.
pub proof fn lemma_place_is(es: Seq<CandidateView>, c: CandidateView, default: Seq<char>, p: int)
    requires
        0 <= p <= es.len(),
        p < es.len() ==> shown_before(c, es[p], default),
        forall|k: int| 0 <= k < p ==> !shown_before(c, #[trigger] es[k], default),
    ensures
        place(es, c, default) == p,
{
    lemma_place(es, c, default);
}

/// The candidates of one invocation, keyed by name, in the order of their
/// insertion.
#[derive(Debug)]
pub struct Registry {
    entries: Vec<Candidate>,
}

impl View for Registry {
    type V = Seq<CandidateView>;

    closed spec fn view(&self) -> Seq<CandidateView> {
        views_of(self.entries@)
    }
}

impl Registry {
    /// What holds of every registry: no two entries bear the same name.
    #[verifier::type_invariant]
    spec fn names_are_distinct(self) -> bool {
        distinct_names(views_of(self.entries@))
    }

    /// A registry without entries.
    pub fn new() -> (r: Registry)
        ensures
            r@ == Seq::<CandidateView>::empty(),
    {
        let r = Registry { entries: Vec::new() };
        r
    }

    /// The number of entries.
    pub fn len(&self) -> (n: usize)
        ensures
            n == self@.len(),
    {
        self.entries.len()
    }

    /// The entries in the order of their insertion.
    pub fn entries(&self) -> (es: &Vec<Candidate>)
        ensures
            views_of(es@) == self@,
            distinct_names(self@),
    {
        proof {
            use_type_invariant(self);
        }
        &self.entries
    }

    /// Where the entry of that name stands.
    fn find(&self, name: &str) -> (r: Option<usize>)
        ensures
            match r {
                Some(i) => i < self.entries@.len() && entry_named(self@, name@) == Some(
                    self.entries@[i as int]@,
                ),
                None => entry_named(self@, name@) is None,
            },
    {
        let mut i: usize = 0;
        assert(self@.skip(0) == self@);
        while i < self.entries.len()
            invariant
                i <= self.entries.len(),
                entry_named(self@.skip(i as int), name@) == entry_named(self@, name@),
            decreases self.entries.len() - i,
        {
            assert(self@.skip(i as int).skip(1) == self@.skip(i + 1));
            if same_text(self.entries[i].name.as_str(), name) {
                return Some(i);
            }
            i = i + 1;
        }
        None
    }

    /// The entry of that name.
    pub fn get(&self, name: &str) -> (r: Option<&Candidate>)
        ensures
            match r {
                Some(c) => entry_named(self@, name@) == Some(c@),
                None => entry_named(self@, name@) is None,
            },
    {
        match self.find(name) {
            Some(i) => Some(&self.entries[i]),
            None => None,
        }
    }

    /// Whether an entry bears that name.
    pub fn contains(&self, name: &str) -> (b: bool)
        ensures
            b == (entry_named(self@, name@) is Some),
    {
        self.find(name).is_some()
    }

    /// Inserts a candidate unless its name is taken; says whether it did.
    pub fn insert(&mut self, c: Candidate) -> (added: bool)
        ensures
            final(self)@ == inserted(old(self)@, c@),
            added == (entry_named(old(self)@, c@.name) is None),
            distinct_names(final(self)@),
    {
        proof {
            use_type_invariant(&*self);
        }
        match self.find(c.name.as_str()) {
            Some(_) => false,
            None => {
                proof {
                    lemma_entry_named(self@, c@.name);
                    assert(views_of(self.entries@.push(c)) == views_of(self.entries@).push(c@));
                }
                // The entries are taken out for the push and put back after it.
                let mut entries: Vec<Candidate> = Vec::new();
                std::mem::swap(&mut self.entries, &mut entries);
                entries.push(c);
                std::mem::swap(&mut self.entries, &mut entries);
                true
            },
        }
    }

    /// Inserts the candidates one by one, in order: of two that share a name
    /// the earlier stays, and none replaces an entry that was there before.
    pub fn merge(&mut self, candidates: Vec<Candidate>)
        ensures
            final(self)@ == merged(old(self)@, views_of(candidates@)),
            distinct_names(final(self)@),
    {
        proof {
            use_type_invariant(&*self);
        }
        let ghost all = views_of(candidates@);
        let ghost start = self@;
        for c in it: candidates
            invariant
                it.seq() == candidates@,
                all == views_of(candidates@),
                self@ == merged(start, all.take(it.index() as int)),
                distinct_names(self@),
        {
            assert(all.take(it.index() + 1).drop_last() == all.take(it.index() as int));
            self.insert(c);
        }
        assert(all.take(candidates@.len() as int) == all);
    }

    /// The registry of one invocation: the reserved default session as a
    /// live session, whether it runs or not; then every running session;
    /// then what the scan found.
    pub fn build(default: &str, sessions: &Vec<String>, found: Vec<Candidate>) -> (r: Registry)
        ensures
            r@ == registry_of(default@, texts_of(sessions@), views_of(found@)),
            distinct_names(r@),
    {
        let mut r = Registry::new();
        r.insert(Candidate::live(default.to_owned()));
        let ghost first = r@;
        let ghost live = live_sessions(texts_of(sessions@));
        let mut i: usize = 0;
        while i < sessions.len()
            invariant
                i <= sessions.len(),
                live == live_sessions(texts_of(sessions@)),
                r@ == merged(first, live.take(i as int)),
            decreases sessions.len() - i,
        {
            assert(live.take(i + 1).drop_last() == live.take(i as int));
            r.insert(Candidate::live(sessions[i].clone()));
            i = i + 1;
        }
        assert(live.take(i as int) == live);
        r.merge(found);
        r
    }

    /// The entries in display order: the reserved default session first,
    /// then the candidates without a path, then those with one; within each
    /// group by name, byte-wise ascending.
    pub fn ordered(&self, default: &str) -> (out: Vec<Candidate>)
        ensures
            views_of(out@) == display_order(self@, default@),
            in_display_order(views_of(out@), default@),
            views_of(out@).to_multiset() == self@.to_multiset(),
            out@.len() == self@.len(),
            entry_named(self@, default@) is Some ==> views_of(out@)[0].name == default@,
    {
        let mut out: Vec<Candidate> = Vec::new();
        let mut i: usize = 0;
        while i < self.entries.len()
            invariant
                i <= self.entries.len(),
                views_of(out@) == display_order(self@.take(i as int), default@),
            decreases self.entries.len() - i,
        {
            let c = &self.entries[i];
            let mut p: usize = 0;
            while p < out.len() && !is_shown_before(c, &out[p], default)
                invariant
                    p <= out.len(),
                    forall|k: int|
                        0 <= k < p ==> !shown_before(c@, #[trigger] views_of(out@)[k], default@),
                decreases out.len() - p,
            {
                p = p + 1;
            }
            let copy = c.clone();
            proof {
                lemma_place_is(views_of(out@), c@, default@, p as int);
                assert(self@.take(i + 1).drop_last() == self@.take(i as int));
            }
            out.insert(p, copy);
            i = i + 1;
        }
        proof {
            assert(self@.take(i as int) == self@);
            lemma_display_sorted(self@, default@);
            lemma_display_permutes(self@, default@);
            if entry_named(self@, default@) is Some {
                lemma_default_first(self@, default@);
            }
        }
        out
    }
}

/// The group that a candidate is shown in.
pub fn rank_of(c: &Candidate, default: &str) -> (r: u8)
    ensures
        r == rank(c@, default@),
{
    if same_text(c.name.as_str(), default) {
        0
    } else if c.path.is_none() {
        1
    } else {
        2
    }
}

/// Whether `a` is shown strictly before `b`.
pub fn is_shown_before(a: &Candidate, b: &Candidate, default: &str) -> (r: bool)
    ensures
        r == shown_before(a@, b@, default@),
{
    let x = rank_of(a, default);
    let y = rank_of(b, default);
    x < y || (x == y && precedes(a.name.as_str(), b.name.as_str()))
}

} // verus!
