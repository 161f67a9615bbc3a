//! Why a resolved path stays under its root.
//!
//! A path is read again, segment by segment, by whoever opens it. It stays
//! under the root if that second reading never steps up from the root.

use vstd::prelude::*;
use crate::resolve::{
    apply_steps, join_path, needs_separator, percent_decoded, resolved_components, resolved_path,
    step_of, steps_of, steps_of_segment, steps_of_text, StepView,
};
use crate::segments::{classify, split_segments, SegmentKind, SEPARATOR};

verus! {

/// A name that reads as one normal segment: not empty, not `.` or `..`, and
/// without a separator in it.
pub open spec fn is_plain_name(name: Seq<char>) -> bool {
    classify(name) == SegmentKind::Normal && !name.contains(SEPARATOR)
}

/// Every one of `names` is a plain name.
pub open spec fn all_plain(names: Seq<Seq<char>>) -> bool {
    forall|i: int| 0 <= i < names.len() ==> is_plain_name(#[trigger] names[i])
}

/// Every `Push` among `steps` appends a plain name.
pub open spec fn pushes_plain_names(steps: Seq<StepView>) -> bool {
    forall|i: int|
        0 <= i < steps.len() ==> (#[trigger] steps[i] matches StepView::Push(name)
            ==> is_plain_name(name))
}

/// The depth below the starting directory after `segments` were followed from
/// depth `depth`, or `None` if a step up was made at depth zero.
pub open spec fn walk(segments: Seq<Seq<char>>, depth: nat) -> Option<nat>
    decreases segments.len(),
{
    if segments.len() == 0 {
        Some(depth)
    } else {
        match walk(segments.drop_last(), depth) {
            None => None,
            Some(d) => match classify(segments.last()) {
                SegmentKind::Normal => Some(d + 1),
                SegmentKind::Ignorable => Some(d),
                SegmentKind::Parent => if d > 0 {
                    Some((d - 1) as nat)
                } else {
                    None
                },
            },
        }
    }
}

/// Following `relative` from a directory never leaves that directory.
pub open spec fn stays_inside(relative: Seq<char>) -> bool {
    walk(split_segments(relative), 0) is Some
}

/// `path` is `root` itself or lies below it: it is `root` followed by a
/// relative part that starts a new segment and never steps up from `root`.
pub open spec fn is_within(root: Seq<char>, path: Seq<char>) -> bool {
    exists|relative: Seq<char>|
        {
            &&& path == root + relative
            &&& relative.len() == 0 || relative[0] == SEPARATOR || !needs_separator(root)
            &&& #[trigger] stays_inside(relative)
        }
}

/// No segment of `segments` is a step up.
pub open spec fn no_parent(segments: Seq<Seq<char>>) -> bool {
    forall|i: int| 0 <= i < segments.len() ==> classify(#[trigger] segments[i]) != SegmentKind::Parent
}

/// What `join_path` puts behind the root.
pub open spec fn relative_part(root: Seq<char>, components: Seq<Seq<char>>) -> Seq<char>
    decreases components.len(),
{
    if components.len() == 0 {
        Seq::empty()
    } else {
        let relative = relative_part(root, components.drop_last());
        if needs_separator(root + relative) {
            relative.push(SEPARATOR) + components.last()
        } else {
            relative + components.last()
        }
    }
}

/// A walk without a step up never fails.
pub proof fn lemma_walk_without_parent(segments: Seq<Seq<char>>, depth: nat)
    requires
        no_parent(segments),
    ensures
        walk(segments, depth) is Some,
    decreases segments.len(),
{
    if segments.len() > 0 {
        assert forall|i: int| 0 <= i < segments.drop_last().len() implies classify(
            #[trigger] segments.drop_last()[i],
        ) != SegmentKind::Parent by {
            assert(segments.drop_last()[i] == segments[i]);
        }
        lemma_walk_without_parent(segments.drop_last(), depth);
        assert(classify(segments[segments.len() - 1]) != SegmentKind::Parent);
    }
}

/// Appending text without a separator extends the last segment.
pub proof fn lemma_split_append_name(path: Seq<char>, name: Seq<char>)
    requires
        !name.contains(SEPARATOR),
    ensures
        split_segments(path + name) == split_segments(path).drop_last().push(
            split_segments(path).last() + name,
        ),
    decreases name.len(),
{
    crate::segments::lemma_split_nonempty(path);
    let segments = split_segments(path);
    if name.len() == 0 {
        assert(path + name =~= path);
        assert(segments.last() + name =~= segments.last());
        assert(segments.drop_last().push(segments.last()) =~= segments);
    } else {
        let shorter = name.drop_last();
        assert forall|c: char| shorter.contains(c) implies name.contains(c) by {
            let i = choose|i: int| 0 <= i < shorter.len() && shorter[i] == c;
            assert(name[i] == c);
        }
        lemma_split_append_name(path, shorter);
        assert(name.contains(name.last())) by {
            assert(name[name.len() - 1] == name.last());
        }
        assert((path + name).drop_last() =~= path + shorter);
        assert((path + name).last() == name.last());
        let before = split_segments(path + shorter);
        assert(before.drop_last() =~= segments.drop_last());
        assert(before.last().push(name.last()) =~= segments.last() + name);
    }
}

/// The resolved path is the root followed by `relative_part`.
pub proof fn lemma_join_is_root_then_relative(root: Seq<char>, components: Seq<Seq<char>>)
    ensures
        join_path(root, components) == root + relative_part(root, components),
    decreases components.len(),
{
    if components.len() == 0 {
        assert(root + Seq::<char>::empty() =~= root);
    } else {
        lemma_join_is_root_then_relative(root, components.drop_last());
        let relative = relative_part(root, components.drop_last());
        assert((root + relative).push(SEPARATOR) + components.last() =~= root + (relative.push(
            SEPARATOR,
        ) + components.last()));
        assert((root + relative) + components.last() =~= root + (relative + components.last()));
    }
}

/// Plain names give a relative part without a step up in it.
pub proof fn lemma_relative_part_of_plain_names(root: Seq<char>, components: Seq<Seq<char>>)
    requires
        all_plain(components),
    ensures
        no_parent(split_segments(relative_part(root, components))),
    decreases components.len(),
{
    let relative = relative_part(root, components);
    if components.len() == 0 {
        assert(split_segments(relative) =~= seq![Seq::<char>::empty()]);
    } else {
        let earlier = components.drop_last();
        let name = components.last();
        assert(is_plain_name(components[components.len() - 1]));
        assert forall|i: int| 0 <= i < earlier.len() implies is_plain_name(
            #[trigger] earlier[i],
        ) by {
            assert(earlier[i] == components[i]);
        }
        lemma_relative_part_of_plain_names(root, earlier);
        let before = relative_part(root, earlier);
        let segments = split_segments(before);
        crate::segments::lemma_split_nonempty(before);
        if needs_separator(root + before) {
            let cut = before.push(SEPARATOR);
            assert(cut.drop_last() =~= before);
            lemma_split_append_name(cut, name);
            assert(Seq::<char>::empty() + name =~= name);
            assert(split_segments(cut).drop_last() =~= segments);
            assert(split_segments(relative) == segments.push(name));
        } else {
            lemma_split_append_name(before, name);
            if before.len() == 0 {
                assert(segments =~= seq![Seq::<char>::empty()]);
            } else {
                assert((root + before).last() == before.last());
                assert(segments.last() =~= Seq::<char>::empty());
            }
            assert(segments.last() + name =~= name);
            assert(split_segments(relative) == segments.drop_last().push(name));
        }
        assert forall|i: int| 0 <= i < split_segments(relative).len() implies classify(
            #[trigger] split_segments(relative)[i],
        ) != SegmentKind::Parent by {
            if i < split_segments(relative).len() - 1 {
                assert(split_segments(relative)[i] == segments[i]);
            }
        }
    }
}

/// Steps that push only plain names leave only plain names.
pub proof fn lemma_steps_keep_names_plain(steps: Seq<StepView>)
    requires
        pushes_plain_names(steps),
    ensures
        all_plain(apply_steps(steps)),
    decreases steps.len(),
{
    if steps.len() > 0 {
        let earlier = steps.drop_last();
        assert forall|i: int| 0 <= i < earlier.len() implies (#[trigger] earlier[i] matches StepView::Push(
            name,
        ) ==> is_plain_name(name)) by {
            assert(earlier[i] == steps[i]);
        }
        lemma_steps_keep_names_plain(earlier);
        assert(steps[steps.len() - 1] == steps.last());
    }
}

/// Whatever the components are, what `join_path` puts behind the root starts
/// a new segment.
pub proof fn lemma_relative_part_starts_segment(root: Seq<char>, components: Seq<Seq<char>>)
    ensures
        ({
            let relative = relative_part(root, components);
            relative.len() == 0 || relative[0] == SEPARATOR || !needs_separator(root)
        }),
    decreases components.len(),
{
    if components.len() > 0 {
        lemma_relative_part_starts_segment(root, components.drop_last());
        let before = relative_part(root, components.drop_last());
        if before.len() == 0 {
            assert(root + before =~= root);
        }
    }
}

/// Containment, exactly. A resolved path is the root or lies below it if and
/// only if reading what was joined onto the root never steps up from it.
pub proof fn lemma_within_exactly_when_relative_part_stays_inside(
    root: Seq<char>,
    components: Seq<Seq<char>>,
)
    ensures
        is_within(root, join_path(root, components)) <==> stays_inside(
            relative_part(root, components),
        ),
{
    let path = join_path(root, components);
    let joined = relative_part(root, components);
    lemma_join_is_root_then_relative(root, components);
    lemma_relative_part_starts_segment(root, components);
    if is_within(root, path) {
        let relative = choose|relative: Seq<char>|
            {
                &&& path == root + relative
                &&& relative.len() == 0 || relative[0] == SEPARATOR || !needs_separator(root)
                &&& #[trigger] stays_inside(relative)
            };
        assert(relative =~= (root + relative).subrange(
            root.len() as int,
            (root + relative).len() as int,
        ));
        assert(joined =~= (root + joined).subrange(
            root.len() as int,
            (root + joined).len() as int,
        ));
        assert(relative == joined);
    }
}

/// Plain names joined onto a root give the root or a path below it.
pub proof fn lemma_plain_names_stay_within_root(root: Seq<char>, components: Seq<Seq<char>>)
    requires
        all_plain(components),
    ensures
        is_within(root, join_path(root, components)),
{
    lemma_relative_part_of_plain_names(root, components);
    lemma_walk_without_parent(split_segments(relative_part(root, components)), 0);
    lemma_within_exactly_when_relative_part_stays_inside(root, components);
}

/// A segment holds no separator, and no character that its path lacks.
pub proof fn lemma_segments_come_from_path(path: Seq<char>)
    ensures
        forall|i: int, c: char|
            0 <= i < split_segments(path).len() && #[trigger] split_segments(path)[i].contains(c)
                ==> c != SEPARATOR && path.contains(c),
    decreases path.len(),
{
    let segments = split_segments(path);
    if path.len() > 0 {
        let shorter = path.drop_last();
        let before = split_segments(shorter);
        lemma_segments_come_from_path(shorter);
        crate::segments::lemma_split_nonempty(shorter);
        assert forall|i: int, c: char|
            0 <= i < segments.len() && #[trigger] segments[i].contains(c) implies c != SEPARATOR
            && path.contains(c) by {
            let k = choose|k: int| 0 <= k < segments[i].len() && segments[i][k] == c;
            if path.last() == SEPARATOR {
                assert(i < before.len());
                assert(segments[i] == before[i]);
                assert(before[i].contains(c));
                let j = choose|j: int| 0 <= j < shorter.len() && shorter[j] == c;
                assert(path[j] == c);
            } else if i < before.len() - 1 {
                assert(segments[i] == before[i]);
                assert(before[i].contains(c));
                let j = choose|j: int| 0 <= j < shorter.len() && shorter[j] == c;
                assert(path[j] == c);
            } else if k < before.last().len() {
                assert(before[before.len() - 1][k] == c);
                assert(before[before.len() - 1].contains(c));
                let j = choose|j: int| 0 <= j < shorter.len() && shorter[j] == c;
                assert(path[j] == c);
            } else {
                assert(c == path.last());
                assert(path[path.len() - 1] == c);
            }
        }
    }
}

/// The steps of decoded text push plain names only.
pub proof fn lemma_text_pushes_plain_names(text: Seq<char>)
    ensures
        pushes_plain_names(steps_of_text(text)),
{
    let segments = split_segments(text);
    let steps = steps_of_text(text);
    lemma_segments_come_from_path(text);
    assert forall|i: int| 0 <= i < steps.len() implies (#[trigger] steps[i] matches StepView::Push(
        name,
    ) ==> is_plain_name(name)) by {
        assert(steps[i] == step_of(segments[i]));
        assert(segments[i].contains(SEPARATOR) ==> SEPARATOR != SEPARATOR);
    }
}

/// The steps of raw segments push plain names only, whatever the segments
/// decode to.
pub proof fn lemma_segments_push_plain_names(segments: Seq<Seq<char>>)
    ensures
        pushes_plain_names(steps_of(segments)),
    decreases segments.len(),
{
    if segments.len() > 0 {
        lemma_segments_push_plain_names(segments.drop_last());
        let earlier = steps_of(segments.drop_last());
        let added = steps_of_segment(segments.last());
        if classify(segments.last()) == SegmentKind::Normal {
            lemma_text_pushes_plain_names(percent_decoded(segments.last()));
        }
        assert forall|i: int| 0 <= i < (earlier + added).len() implies (#[trigger] (earlier
            + added)[i] matches StepView::Push(name) ==> is_plain_name(name)) by {
            if i < earlier.len() {
                assert((earlier + added)[i] == earlier[i]);
            } else {
                assert((earlier + added)[i] == added[i - earlier.len()]);
            }
        }
    }
}

/// Every request resolves to plain names.
pub proof fn lemma_request_resolves_to_plain_names(requested: Seq<char>)
    ensures
        all_plain(resolved_components(requested)),
{
    lemma_segments_push_plain_names(split_segments(requested));
    lemma_steps_keep_names_plain(steps_of(split_segments(requested)));
}

/// Containment. Every request, whatever names, steps up, empty segments,
/// separators and escapes it is made of, resolves to the root or to a path
/// below it.
pub proof fn lemma_request_stays_within_root(root: Seq<char>, requested: Seq<char>)
    ensures
        is_within(root, resolved_path(root, requested)),
{
    lemma_request_resolves_to_plain_names(requested);
    lemma_plain_names_stay_within_root(root, resolved_components(requested));
}

} // verus!
