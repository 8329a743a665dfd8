//! Paths as text: their segments between separators.

use crate::text::{chars_of, slice_of};
use vstd::prelude::*;
use vstd::string::*;

verus! {

/// The separator between the segments of a path.
pub open spec fn is_separator(c: char) -> bool {
    c == '/'
}

/// The end of the last segment that lies within the first `end` characters
/// of `p`: the greatest `e <= end` that is zero or follows a character other
/// than the separator.
pub open spec fn segment_end(p: Seq<char>, end: int) -> int
    decreases end,
{
    if end <= 0 || end > p.len() {
        0
    } else if !is_separator(p[end - 1]) {
        end
    } else {
        segment_end(p, end - 1)
    }
}

/// The start of the segment that ends at `end`: the least `s <= end` with no
/// separator among the characters from `s` up to `end`.
pub open spec fn segment_start(p: Seq<char>, end: int) -> int
    decreases end,
{
    if end <= 0 || end > p.len() {
        0
    } else if is_separator(p[end - 1]) {
        end
    } else {
        segment_start(p, end - 1)
    }
}

/// The last segment of a path, trailing separators ignored; `None` where the
/// path holds no segment at all.
pub open spec fn leaf(p: Seq<char>) -> Option<Seq<char>> {
    let e = segment_end(p, p.len() as int);
    if e == 0 {
        None
    } else {
        Some(p.subrange(segment_start(p, e), e))
    }
}

/// The path that is left when the last segment is cut off.
pub open spec fn without_leaf(p: Seq<char>) -> Seq<char> {
    p.subrange(0, segment_start(p, segment_end(p, p.len() as int)))
}

/// The last two segments of a path joined by one separator; `None` where the
/// path holds fewer than two segments.
pub open spec fn last_two(p: Seq<char>) -> Option<Seq<char>> {
    match (leaf(without_leaf(p)), leaf(p)) {
        (Some(base), Some(name)) => Some(base + seq!['/'] + name),
        _ => None,
    }
}

/// Whether a text can be one segment: it is not empty and holds no separator.
pub open spec fn is_segment(name: Seq<char>) -> bool {
    name.len() > 0 && forall|k: int| 0 <= k < name.len() ==> !is_separator(#[trigger] name[k])
}

/// A directory, a separator and a name.
pub open spec fn joined(dir: Seq<char>, name: Seq<char>) -> Seq<char> {
    dir + seq!['/'] + name
}

/// Where the last segment within the first `end` characters starts and
/// ends, and what stands around it.
pub proof fn lemma_segment_bounds(p: Seq<char>, end: int)
    requires
        0 <= end <= p.len(),
    ensures
        0 <= segment_start(p, end) <= end,
        0 <= segment_end(p, end) <= end,
        segment_end(p, end) > 0 ==> !is_separator(p[segment_end(p, end) - 1]),
        segment_end(p, end) > 0 ==> segment_start(p, segment_end(p, end)) < segment_end(
            p,
            end,
        ),
        forall|k: int| segment_end(p, end) <= k < end ==> is_separator(#[trigger] p[k]),
        forall|k: int| segment_start(p, end) <= k < end ==> !is_separator(#[trigger] p[k]),
        segment_start(p, end) > 0 ==> is_separator(p[segment_start(p, end) - 1]),
    decreases end,
{
    if end > 0 {
        lemma_segment_bounds(p, end - 1);
    }
}

/// Segment boundaries within a prefix are those of the whole path.
pub proof fn lemma_prefix_segments(p: Seq<char>, cut: int, end: int)
    requires
        0 <= end <= cut <= p.len(),
    ensures
        segment_end(p.subrange(0, cut), end) == segment_end(p, end),
        segment_start(p.subrange(0, cut), end) == segment_start(p, end),
    decreases end,
{
    if end > 0 {
        lemma_prefix_segments(p, cut, end - 1);
    }
}

/// Within a path that ends in a name, every end inside the name has the
/// name's start as its segment start.
proof fn lemma_start_within_name(dir: Seq<char>, name: Seq<char>, end: int)
    requires
        is_segment(name),
        dir.len() < end <= joined(dir, name).len(),
    ensures
        segment_start(joined(dir, name), end) == dir.len() + 1,
    decreases end,
{
    if end > dir.len() + 1 {
        lemma_start_within_name(dir, name, end - 1);
    }
}

/// The last segment of a directory joined with a name is the name, and what
/// is left without it is the directory with its separator.
pub proof fn lemma_leaf_of_joined(dir: Seq<char>, name: Seq<char>)
    requires
        is_segment(name),
    ensures
        leaf(joined(dir, name)) == Some(name),
        without_leaf(joined(dir, name)) == dir + seq!['/'],
{
    lemma_start_within_name(dir, name, joined(dir, name).len() as int);
}

/// Separators at the end of a path do not change its last segment.
pub proof fn lemma_leaf_ignores_trailing_separator(p: Seq<char>)
    ensures
        leaf(p + seq!['/']) == leaf(p),
{
    let q = p + seq!['/'];
    let n = p.len() as int;
    assert(q.subrange(0, n) == p);
    lemma_prefix_segments(q, n, n);
    lemma_segment_bounds(p, n);
    let e = segment_end(p, n);
    lemma_prefix_segments(q, n, e);
    lemma_segment_bounds(p, e);
}

/// The last two segments of a directory joined with a name are the last
/// segment of the directory and the name.
pub proof fn lemma_last_two_of_joined(dir: Seq<char>, name: Seq<char>)
    requires
        is_segment(name),
    ensures
        last_two(joined(dir, name)) == match leaf(dir) {
            Some(base) => Some(base + seq!['/'] + name),
            None => None,
        },
{
    lemma_leaf_of_joined(dir, name);
    lemma_leaf_ignores_trailing_separator(dir);
}

/// Finds `segment_end(chars, end)` by walking back over separators.
pub(crate) fn find_segment_end(chars: &Vec<char>, end: usize) -> (e: usize)
    requires
        end <= chars.len(),
    ensures
        e <= end,
        e == segment_end(chars@, end as int),
{
    let mut e: usize = end;
    while e > 0 && chars[e - 1] == '/'
        invariant
            e <= end <= chars.len(),
            segment_end(chars@, e as int) == segment_end(chars@, end as int),
        decreases e,
    {
        e = e - 1;
    }
    e
}

/// Finds `segment_start(chars, end)` by walking back to the nearest separator.
pub(crate) fn find_segment_start(chars: &Vec<char>, end: usize) -> (s: usize)
    requires
        end <= chars.len(),
    ensures
        s <= end,
        s == segment_start(chars@, end as int),
{
    let mut s: usize = end;
    while s > 0 && chars[s - 1] != '/'
        invariant
            s <= end <= chars.len(),
            segment_start(chars@, s as int) == segment_start(chars@, end as int),
        decreases s,
    {
        s = s - 1;
    }
    s
}

/// The last segment of `path`.
pub fn leaf_name(path: &str) -> (r: Option<String>)
    ensures
        r is Some <==> leaf(path@) is Some,
        r matches Some(name) ==> Some(name@) == leaf(path@),
{
    let chars = chars_of(path);
    let e = find_segment_end(&chars, chars.len());
    if e == 0 {
        None
    } else {
        let s = find_segment_start(&chars, e);
        proof {
            lemma_segment_bounds(chars@, e as int);
        }
        Some(slice_of(path, s, e))
    }
}

/// The last two segments of `path`, joined by one separator.
pub fn last_two_segments(path: &str) -> (r: Option<String>)
    ensures
        r is Some <==> last_two(path@) is Some,
        r matches Some(name) ==> Some(name@) == last_two(path@),
{
    let chars = chars_of(path);
    let e = find_segment_end(&chars, chars.len());
    if e == 0 {
        return None;
    }
    let s = find_segment_start(&chars, e);
    proof {
        lemma_segment_bounds(chars@, e as int);
        lemma_segment_bounds(chars@, s as int);
        lemma_prefix_segments(chars@, s as int, s as int);
    }
    let e2 = find_segment_end(&chars, s);
    if e2 == 0 {
        return None;
    }
    let s2 = find_segment_start(&chars, e2);
    proof {
        lemma_prefix_segments(chars@, s as int, e2 as int);
        reveal_strlit("/");
    }
    let base = slice_of(path, s2, e2);
    let name = slice_of(path, s, e);
    let joined = base.concat("/").concat(name.as_str());
    Some(joined)
}

} // verus!
