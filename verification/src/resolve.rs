//! Resolving a requested path against a root directory.
//!
//! The request is cut into segments; each segment becomes steps on an
//! accumulator of component names, which starts empty and can never shrink
//! below empty; the finished accumulator is joined onto the root.
//!
//! A segment that is a name is percent-decoded first. What it decodes to is
//! read as segments once more, since an escape can spell a separator or a
//! step up: only what is a name after decoding is ever appended.

use vstd::prelude::*;
use vstd::string::StringExecFns;
use crate::containment::{
    all_plain, is_within, lemma_plain_names_stay_within_root, lemma_request_resolves_to_plain_names,
};
use crate::segments::{classify, classify_segment, split, split_segments, views, SegmentKind, SEPARATOR};

verus! {

/// What one segment does to the accumulator.
#[derive(Debug)]
pub enum Step {
    /// Appends the name as a new last component.
    Push(String),
    /// Removes the last component, if there is one.
    Pop,
    /// Leaves the accumulator as it is.
    Skip,
}

/// The mathematical value of a `Step`.
pub enum StepView {
    Push(Seq<char>),
    Pop,
    Skip,
}

impl View for Step {
    type V = StepView;

    open spec fn view(&self) -> StepView {
        match self {
            Step::Push(name) => StepView::Push(name@),
            Step::Pop => StepView::Pop,
            Step::Skip => StepView::Skip,
        }
    }
}

/// The views of a sequence of steps.
pub open spec fn step_views(steps: Seq<Step>) -> Seq<StepView> {
    steps.map_values(|s: Step| s@)
}

/// What percent-decoding makes of a segment that holds at least one `%`:
/// every `%` followed by two hexadecimal digits becomes the byte they spell,
/// and the bytes are then read as UTF-8, ill-formed parts being replaced by
/// U+FFFD.
pub uninterp spec fn percent_decoded_escapes(segment: Seq<char>) -> Seq<char>;

/// What a segment decodes to: the segment itself where it holds no `%`, and
/// its percent-decoding otherwise.
pub open spec fn percent_decoded(segment: Seq<char>) -> Seq<char> {
    if segment.contains('%') {
        percent_decoded_escapes(segment)
    } else {
        segment
    }
}

/// The step that a segment of decoded text stands for: a name is appended,
/// `..` steps up, and the empty segment and `.` do nothing.
pub open spec fn step_of(segment: Seq<char>) -> StepView {
    match classify(segment) {
        SegmentKind::Normal => StepView::Push(segment),
        SegmentKind::Parent => StepView::Pop,
        SegmentKind::Ignorable => StepView::Skip,
    }
}

/// The steps of decoded text: one for each of its segments.
pub open spec fn steps_of_text(text: Seq<char>) -> Seq<StepView> {
    split_segments(text).map_values(|segment: Seq<char>| step_of(segment))
}

/// The steps of one raw segment of a request. A name is decoded and what it
/// decodes to is read as segments; the other segments are their own step.
pub open spec fn steps_of_segment(segment: Seq<char>) -> Seq<StepView> {
    match classify(segment) {
        SegmentKind::Normal => steps_of_text(percent_decoded(segment)),
        SegmentKind::Parent => seq![StepView::Pop],
        SegmentKind::Ignorable => seq![StepView::Skip],
    }
}

/// The steps of a list of raw segments, in order.
pub open spec fn steps_of(segments: Seq<Seq<char>>) -> Seq<StepView>
    decreases segments.len(),
{
    if segments.len() == 0 {
        Seq::empty()
    } else {
        steps_of(segments.drop_last()) + steps_of_segment(segments.last())
    }
}

/// The accumulator after `steps`, starting from empty.
pub open spec fn apply_steps(steps: Seq<StepView>) -> Seq<Seq<char>>
    decreases steps.len(),
{
    if steps.len() == 0 {
        Seq::empty()
    } else {
        let before = apply_steps(steps.drop_last());
        match steps.last() {
            StepView::Push(name) => before.push(name),
            StepView::Pop => if before.len() > 0 {
                before.drop_last()
            } else {
                before
            },
            StepView::Skip => before,
        }
    }
}

/// Whether a component appended to `prefix` needs a separator in front.
pub open spec fn needs_separator(prefix: Seq<char>) -> bool {
    prefix.len() > 0 && prefix.last() != SEPARATOR
}

/// `root` followed by each of `components`, a separator standing between
/// two parts wherever the text so far does not already end in one.
pub open spec fn join_path(root: Seq<char>, components: Seq<Seq<char>>) -> Seq<char>
    decreases components.len(),
{
    if components.len() == 0 {
        root
    } else {
        let prefix = join_path(root, components.drop_last());
        if needs_separator(prefix) {
            prefix.push(SEPARATOR) + components.last()
        } else {
            prefix + components.last()
        }
    }
}

/// The component names that a requested path resolves to.
pub open spec fn resolved_components(requested: Seq<char>) -> Seq<Seq<char>> {
    apply_steps(steps_of(split_segments(requested)))
}

/// The path that `requested` resolves to under `root`.
pub open spec fn resolved_path(root: Seq<char>, requested: Seq<char>) -> Seq<char> {
    join_path(root, resolved_components(requested))
}

/// Calls `percent_encoding::percent_decode` on the bytes of `segment` and
/// `decode_utf8_lossy` on what it returns. The result is a function of the
/// segment alone; a segment without `%` comes back unchanged, because the
/// decoder copies every byte that does not start an escape and the bytes of
/// a string are well-formed UTF-8.
#[verifier::external_body]
fn percent_decode_lossy(segment: &str) -> (decoded: String)
    ensures
        segment@.contains('%') ==> decoded@ == percent_decoded_escapes(segment@),
        !segment@.contains('%') ==> decoded@ == segment@,
{
    percent_encoding::percent_decode(segment.as_bytes()).decode_utf8_lossy().into_owned()
}

/// Reads decoded text as segments and gives the step of each: a name is
/// appended, `..` steps up, the rest does nothing.
pub fn steps_for_text(text: &str) -> (steps: Vec<Step>)
    ensures
        step_views(steps@) == steps_of_text(text@),
{
    let segments = split(text);
    let mut steps: Vec<Step> = Vec::new();
    let mut i: usize = 0;
    assert(step_views(steps@) =~= steps_of_text(text@).take(0));
    while i < segments.len()
        invariant
            i <= segments.len(),
            views(segments@) == split_segments(text@),
            step_views(steps@) == steps_of_text(text@).take(i as int),
        decreases segments.len() - i,
    {
        let ghost before = step_views(steps@);
        assert(segments@[i as int]@ == views(segments@)[i as int]);
        let step = match classify_segment(segments[i].as_str()) {
            SegmentKind::Normal => Step::Push(segments[i].clone()),
            SegmentKind::Parent => Step::Pop,
            SegmentKind::Ignorable => Step::Skip,
        };
        assert(step@ == step_of(segments@[i as int]@));
        steps.push(step);
        assert(step_views(steps@) =~= before.push(step@));
        assert(steps_of_text(text@).take(i + 1) =~= before.push(step@));
        i = i + 1;
    }
    assert(steps_of_text(text@).take(i as int) =~= steps_of_text(text@));
    steps
}

/// The steps of one raw segment of a request: a name is decoded and read as
/// segments, `..` steps up, the rest does nothing.
pub fn steps_for(segment: &str) -> (steps: Vec<Step>)
    ensures
        step_views(steps@) == steps_of_segment(segment@),
{
    match classify_segment(segment) {
        SegmentKind::Normal => {
            let decoded = percent_decode_lossy(segment);
            steps_for_text(decoded.as_str())
        },
        SegmentKind::Parent => {
            let mut steps: Vec<Step> = Vec::new();
            steps.push(Step::Pop);
            assert(step_views(steps@) =~= seq![StepView::Pop]);
            steps
        },
        SegmentKind::Ignorable => {
            let mut steps: Vec<Step> = Vec::new();
            steps.push(Step::Skip);
            assert(step_views(steps@) =~= seq![StepView::Skip]);
            steps
        },
    }
}

/// Runs `steps` in order over an accumulator that starts empty. A `Pop` on
/// the empty accumulator does nothing.
pub fn run_steps(steps: &Vec<Step>) -> (components: Vec<String>)
    ensures
        views(components@) == apply_steps(step_views(steps@)),
{
    let mut components: Vec<String> = Vec::new();
    let mut i: usize = 0;
    assert(step_views(steps@).take(0) =~= Seq::<StepView>::empty());
    assert(views(components@) =~= Seq::<Seq<char>>::empty());
    while i < steps.len()
        invariant
            i <= steps.len(),
            views(components@) == apply_steps(step_views(steps@).take(i as int)),
        decreases steps.len() - i,
    {
        let ghost before = views(components@);
        proof {
            assert(step_views(steps@).take(i + 1).drop_last() =~= step_views(steps@).take(
                i as int,
            ));
            assert(step_views(steps@).take(i + 1).last() == steps@[i as int]@);
        }
        match &steps[i] {
            Step::Push(name) => {
                components.push(name.clone());
                assert(views(components@) =~= before.push(name@));
            },
            Step::Pop => {
                if components.len() > 0 {
                    components.pop();
                    assert(views(components@) =~= before.drop_last());
                }
            },
            Step::Skip => {},
        }
        i = i + 1;
    }
    assert(step_views(steps@).take(i as int) =~= step_views(steps@));
    components
}

/// The last character of `s`, if it has one.
fn last_char(s: &str) -> (last: Option<char>)
    ensures
        s@.len() == 0 ==> last is None,
        s@.len() > 0 ==> last == Some(s@.last()),
{
    broadcast use vstd::string::group_string_axioms;
    let mut last: Option<char> = None;
    for c in it: s.chars()
        invariant
            it.seq() == s@,
            it.index() == 0 ==> last is None,
            it.index() > 0 ==> last == Some(s@[it.index() - 1]),
    {
        last = Some(c);
    }
    last
}

/// Resolves the segments of `requested` to the component names that are left
/// when every segment has taken its steps. Every name that is left is a
/// plain name: not empty, not `.` or `..`, and without a separator.
pub fn resolve_components(requested: &str) -> (components: Vec<String>)
    ensures
        views(components@) == resolved_components(requested@),
        all_plain(resolved_components(requested@)),
{
    let segments = split(requested);
    let mut steps: Vec<Step> = Vec::new();
    let mut i: usize = 0;
    assert(step_views(steps@) =~= Seq::<StepView>::empty());
    assert(split_segments(requested@).take(0) =~= Seq::<Seq<char>>::empty());
    while i < segments.len()
        invariant
            i <= segments.len(),
            views(segments@) == split_segments(requested@),
            step_views(steps@) == steps_of(split_segments(requested@).take(i as int)),
        decreases segments.len() - i,
    {
        let ghost before = step_views(steps@);
        let mut more = steps_for(segments[i].as_str());
        let ghost added = step_views(more@);
        proof {
            assert(segments@[i as int]@ == views(segments@)[i as int]);
            assert(split_segments(requested@).take(i + 1).drop_last() =~= split_segments(
                requested@,
            ).take(i as int));
            assert(split_segments(requested@).take(i + 1).last() == segments@[i as int]@);
        }
        steps.append(&mut more);
        assert(step_views(steps@) =~= before + added);
        i = i + 1;
    }
    proof {
        assert(split_segments(requested@).take(i as int) =~= split_segments(requested@));
        lemma_request_resolves_to_plain_names(requested@);
    }
    run_steps(&steps)
}

/// Joins `components` onto `root`, one after the other. Plain names give
/// `root` itself or a path below it.
pub fn join(root: &str, components: &Vec<String>) -> (path: String)
    ensures
        path@ == join_path(root@, views(components@)),
        all_plain(views(components@)) ==> is_within(root@, path@),
{
    let mut path = String::from_str(root);
    let mut last = last_char(root);
    let mut i: usize = 0;
    assert(views(components@).take(0) =~= Seq::<Seq<char>>::empty());
    while i < components.len()
        invariant
            i <= components.len(),
            path@ == join_path(root@, views(components@).take(i as int)),
            path@.len() == 0 ==> last is None,
            path@.len() > 0 ==> last == Some(path@.last()),
        decreases components.len() - i,
    {
        proof {
            assert(views(components@).take(i + 1).drop_last() =~= views(components@).take(
                i as int,
            ));
            assert(views(components@).take(i + 1).last() == components@[i as int]@);
            reveal_strlit("/");
        }
        let ghost prefix = path@;
        match last {
            Some(c) => {
                if c != SEPARATOR {
                    path.append("/");
                    assert(path@ =~= prefix.push(SEPARATOR));
                    last = Some(SEPARATOR);
                }
            },
            None => {},
        }
        let component = components[i].as_str();
        path.append(component);
        match last_char(component) {
            Some(c) => {
                last = Some(c);
            },
            None => {
                assert(component@ =~= Seq::<char>::empty());
            },
        }
        i = i + 1;
    }
    proof {
        assert(views(components@).take(i as int) =~= views(components@));
        if all_plain(views(components@)) {
            lemma_plain_names_stay_within_root(root@, views(components@));
        }
    }
    path
}

/// Resolves `file_path`, as a client sent it, to a path under `root`.
///
/// Every segment of `file_path` is a name, a step up or nothing. A name is
/// percent-decoded, and what it decodes to is read as segments in the same
/// way, so that an escaped separator or an escaped `..` acts as the plain
/// one does. A name is appended; a step up removes the last name appended
/// so far and does nothing when none is left, so that no step reaches
/// `root` itself. The result is `root`, which it is for the empty request,
/// or lies below it, whatever the request holds.
pub fn get_path(root: &str, file_path: &str) -> (path: String)
    ensures
        path@ == resolved_path(root@, file_path@),
        file_path@.len() == 0 ==> path@ == root@,
        all_plain(resolved_components(file_path@)),
        is_within(root@, path@),
{
    let components = resolve_components(file_path);
    proof {
        if file_path@.len() == 0 {
            lemma_empty_request(root@);
        }
    }
    join(root, &components)
}

/// The empty request resolves to the root itself.
pub proof fn lemma_empty_request(root: Seq<char>)
    ensures
        resolved_components(Seq::<char>::empty()).len() == 0,
        resolved_path(root, Seq::<char>::empty()) == root,
{
    let empty = Seq::<char>::empty();
    let segments = split_segments(empty);
    assert(segments =~= seq![empty]);
    assert(segments.drop_last() =~= Seq::<Seq<char>>::empty());
    reveal_with_fuel(steps_of, 2);
    let steps = steps_of(segments);
    assert(steps =~= seq![StepView::Skip]);
    assert(steps.drop_last() =~= Seq::<StepView>::empty());
    reveal_with_fuel(apply_steps, 2);
    assert(apply_steps(steps) =~= Seq::<Seq<char>>::empty());
}

} // verus!
