//! The interactive selector: what it is shown, and what its answer means.

use crate::candidate::{views_of, Candidate, CandidateView};
use crate::registry::{display_order, distinct_names, entry_named, Registry};
use crate::registry_laws::lemma_default_first;
use crate::text::{texts_of, trim, trimmed};
use vstd::prelude::*;
use vstd::string::*;

verus! {

/// What the selector's answer amounts to.
#[derive(Debug, PartialEq, Eq)]
pub enum Selection {
    /// The selector gave nothing back: the user chose nothing.
    Cancelled,
    /// The candidate that bears the chosen name.
    Chosen(Candidate),
    /// The answer names no candidate that was offered.
    NotOffered { text: String },
}

/// The mathematical value of a [`Selection`].
pub ghost enum SelectionView {
    Cancelled,
    Chosen(CandidateView),
    NotOffered { text: Seq<char> },
}

impl View for Selection {
    type V = SelectionView;

    open spec fn view(&self) -> SelectionView {
        match self {
            Selection::Cancelled => SelectionView::Cancelled,
            Selection::Chosen(c) => SelectionView::Chosen(c@),
            Selection::NotOffered { text } => SelectionView::NotOffered { text: text@ },
        }
    }
}

/// The escape sequence that switches bold on.
pub open spec fn bold_on() -> Seq<char> {
    "\x1b[1m"@
}

/// The escape sequence that switches styling off.
pub open spec fn bold_off() -> Seq<char> {
    "\x1b[0m"@
}

/// The line that shows one candidate: its name, set in bold where the
/// candidate has no path, that is where it is a live session.
pub open spec fn line_of(c: CandidateView) -> Seq<char> {
    if c.path is None {
        bold_on() + c.name + bold_off()
    } else {
        c.name
    }
}

/// The text that shows the candidates: one line for each, in their order,
/// each ended by a line feed.
pub open spec fn rendered(cs: Seq<CandidateView>) -> Seq<char>
    decreases cs.len(),
{
    if cs.len() == 0 {
        Seq::empty()
    } else {
        rendered(cs.drop_last()) + line_of(cs.last()) + seq!['\n']
    }
}

/// What an answer that was freed of surrounding white space means: nothing
/// chosen where it is empty, else the candidate of that very name, else an
/// answer that was not offered.
pub open spec fn resolved(es: Seq<CandidateView>, chosen: Seq<char>) -> SelectionView {
    if chosen.len() == 0 {
        SelectionView::Cancelled
    } else {
        match entry_named(es, chosen) {
            Some(c) => SelectionView::Chosen(c),
            None => SelectionView::NotOffered { text: chosen },
        }
    }
}

/// The text that shows some candidates begins with the line of the first.
pub proof fn lemma_rendered_begins(cs: Seq<CandidateView>)
    requires
        cs.len() > 0,
    ensures
        (line_of(cs[0]) + seq!['\n']).is_prefix_of(rendered(cs)),
    decreases cs.len(),
{
    if cs.len() == 1 {
        assert(rendered(cs.drop_last()) == Seq::<char>::empty());
    } else {
        lemma_rendered_begins(cs.drop_last());
    }
}

/// The reserved default session is rendered first: the text that shows a
/// registry in display order begins with the line of the entry that bears
/// the reserved name, whatever that entry's path and name.
pub proof fn lemma_default_rendered_first(es: Seq<CandidateView>, default: Seq<char>)
    requires
        distinct_names(es),
        entry_named(es, default) is Some,
    ensures
        (line_of(entry_named(es, default)->0) + seq!['\n']).is_prefix_of(
            rendered(display_order(es, default)),
        ),
{
    lemma_default_first(es, default);
    lemma_rendered_begins(display_order(es, default));
}

/// The display flags that the selector is started with.
pub open spec fn selector_flags() -> Seq<Seq<char>> {
    seq!["--margin=5%"@, "--padding=2%"@, "--border"@, "--ansi"@]
}

/// The display flags that the selector is started with.
pub fn selector_args() -> (v: Vec<String>)
    ensures
        texts_of(v@) == selector_flags(),
{
    let v = vec![
        "--margin=5%".to_owned(),
        "--padding=2%".to_owned(),
        "--border".to_owned(),
        "--ansi".to_owned(),
    ];
    v
}

/// The line that shows one candidate.
pub fn render_line(c: &Candidate) -> (line: String)
    ensures
        line@ == line_of(c@),
{
    if c.path.is_none() {
        let line = "\x1b[1m".to_owned().concat(c.name.as_str()).concat("\x1b[0m");
        line
    } else {
        c.name.clone()
    }
}

/// The text that is written to the selector.
pub fn render(candidates: &Vec<Candidate>) -> (text: String)
    ensures
        text@ == rendered(views_of(candidates@)),
{
    let mut text = String::new();
    let ghost all = views_of(candidates@);
    let mut i: usize = 0;
    while i < candidates.len()
        invariant
            i <= candidates.len(),
            all == views_of(candidates@),
            text@ == rendered(all.take(i as int)),
        decreases candidates.len() - i,
    {
        proof {
            reveal_strlit("\n");
            assert(all.take(i + 1).drop_last() == all.take(i as int));
        }
        let line = render_line(&candidates[i]);
        text.append(line.as_str());
        text.append("\n");
        i = i + 1;
    }
    assert(all.take(i as int) == all);
    text
}

/// What an answer means that is already free of surrounding white space.
pub fn resolve(possible_selections: &Registry, chosen: &str) -> (s: Selection)
    ensures
        s@ == resolved(possible_selections@, chosen@),
{
    if chosen.unicode_len() == 0 {
        Selection::Cancelled
    } else {
        match possible_selections.get(chosen) {
            Some(c) => Selection::Chosen(c.clone()),
            None => Selection::NotOffered { text: chosen.to_owned() },
        }
    }
}

/// What the selector's output means: the output is freed of surrounding
/// white space and looked up by exact name among the candidates offered.
/// Empty output is a cancellation, not a failure.
pub fn select_via_fzf(possible_selections: &Registry, output: &str) -> (s: Selection)
    ensures
        s@ == resolved(possible_selections@, trimmed(output@)),
{
    let chosen = trim(output);
    resolve(possible_selections, chosen.as_str())
}

} // verus!
