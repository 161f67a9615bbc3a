//! Cutting a requested path into its segments and classifying each one.

use vstd::prelude::*;
use crate::text::chars_of;

verus! {

/// The character that separates the segments of a path.
pub const SEPARATOR: char = '/';

/// What a raw segment of a requested path stands for.
#[derive(Clone, Copy, Debug, PartialEq, Eq, Structural)]
pub enum SegmentKind {
    /// A literal name.
    Normal,
    /// The marker `..` for the enclosing directory.
    Parent,
    /// Nothing: the empty segment or the marker `.` for the current directory.
    Ignorable,
}

/// The views of a sequence of strings.
pub open spec fn views(strings: Seq<String>) -> Seq<Seq<char>> {
    strings.map_values(|s: String| s@)
}

/// The segments of `path`: the maximal runs without a separator, in order.
pub open spec fn split_segments(path: Seq<char>) -> Seq<Seq<char>>
    decreases path.len(),
{
    if path.len() == 0 {
        seq![Seq::<char>::empty()]
    } else {
        let before = split_segments(path.drop_last());
        if path.last() == SEPARATOR {
            before.push(Seq::<char>::empty())
        } else {
            before.drop_last().push(before.last().push(path.last()))
        }
    }
}

/// The kind of one raw segment.
pub open spec fn classify(segment: Seq<char>) -> SegmentKind {
    if segment.len() == 0 || segment =~= seq!['.'] {
        SegmentKind::Ignorable
    } else if segment =~= seq!['.', '.'] {
        SegmentKind::Parent
    } else {
        SegmentKind::Normal
    }
}

/// There is always at least one segment.
pub proof fn lemma_split_nonempty(path: Seq<char>)
    ensures
        split_segments(path).len() >= 1,
    decreases path.len(),
{
    if path.len() > 0 {
        lemma_split_nonempty(path.drop_last());
    }
}

/// Cuts `path` at every separator.
pub fn split(path: &str) -> (segments: Vec<String>)
    ensures
        views(segments@) == split_segments(path@),
{
    let chars = chars_of(path);
    let mut segments: Vec<String> = Vec::new();
    let mut start: usize = 0;
    let mut i: usize = 0;
    proof {
        assert(path@.take(0).len() == 0);
        assert(path@.subrange(0, 0) =~= Seq::<char>::empty());
        assert(views(segments@).push(Seq::<char>::empty()) =~= seq![Seq::<char>::empty()]);
    }
    while i < chars.len()
        invariant
            chars@ == path@,
            start <= i <= chars.len(),
            split_segments(path@.take(i as int)) == views(segments@).push(
                path@.subrange(start as int, i as int),
            ),
        decreases chars.len() - i,
    {
        proof {
            assert(path@.take(i + 1).drop_last() =~= path@.take(i as int));
            assert(path@.take(i + 1).last() == chars@[i as int]);
        }
        if chars[i] == SEPARATOR {
            let segment = path.substring_char(start, i);
            let ghost before = views(segments@);
            segments.push(segment.to_owned());
            assert(views(segments@) =~= before.push(path@.subrange(start as int, i as int)));
            start = i + 1;
            assert(path@.subrange(start as int, i + 1) =~= Seq::<char>::empty());
        } else {
            assert(path@.subrange(start as int, i + 1) =~= path@.subrange(
                start as int,
                i as int,
            ).push(path@[i as int]));
            assert(views(segments@).push(path@.subrange(start as int, i as int)).drop_last()
                =~= views(segments@));
        }
        i = i + 1;
    }
    let segment = path.substring_char(start, i);
    let ghost before = views(segments@);
    segments.push(segment.to_owned());
    proof {
        assert(views(segments@) =~= before.push(path@.subrange(start as int, i as int)));
        assert(path@.take(i as int) =~= path@);
    }
    segments
}

/// Tells what a raw segment stands for.
pub fn classify_segment(segment: &str) -> (kind: SegmentKind)
    ensures
        kind == classify(segment@),
{
    let chars = chars_of(segment);
    if chars.len() == 0 {
        SegmentKind::Ignorable
    } else if chars.len() == 1 && chars[0] == '.' {
        assert(segment@ =~= seq!['.']);
        SegmentKind::Ignorable
    } else if chars.len() == 2 && chars[0] == '.' && chars[1] == '.' {
        assert(segment@ =~= seq!['.', '.']);
        SegmentKind::Parent
    } else {
        SegmentKind::Normal
    }
}

} // verus!
