//! Building the slide files of one document.
//!
//! Reading the source and writing the output directory are the caller's
//! part. The order of the work and what goes into each file are decided
//! here: the caller starts with `build`, does what the returned action asks,
//! reports how it went to `advance`, and goes on until the action is
//! `Finish` or `Fail`.

use vstd::prelude::*;
use vstd::string::StringExecFns;
use crate::containment::lemma_split_append_name;
use crate::decimal::{
    decimal, lemma_decimal_holds_digits, lemma_decimal_tells_numbers_apart, to_decimal,
};
use crate::resolve::{
    apply_steps, join_path, resolved_components, resolved_path, steps_of, steps_of_text, StepView,
};
use crate::segments::{classify, split_segments, views, SegmentKind, SEPARATOR};
use crate::markdown::{slide_contents, slide_html};
use crate::template::{render, slide_page, TemplateError};

verus! {

/// Why a build ended without its slides.
#[derive(Debug)]
pub enum BuildError {
    /// The source could not be read, or the output could not be written.
    Io(String),
    /// A page could not be expanded from the template.
    Template(TemplateError),
    /// The caller reported what the build had not asked for.
    OutOfTurn,
}

/// How far a build has come.
#[derive(Debug)]
pub enum Stage {
    /// The source document was asked for.
    AwaitingSource,
    /// The slides are known; whether an output directory exists was asked.
    AwaitingProbe { contents: Vec<String> },
    /// The old output directory is being removed.
    AwaitingRemoval { contents: Vec<String> },
    /// The new output directory is being created.
    AwaitingDirectory { contents: Vec<String> },
    /// The files of the first `written` slides were handed out, the last of
    /// them is being written.
    Writing { contents: Vec<String>, written: usize },
    /// The build has ended.
    Done,
}

/// A build under way: the page template and the stage reached.
#[derive(Debug)]
pub struct BuildState {
    pub template: String,
    pub stage: Stage,
}

/// What the caller did or found.
#[derive(Debug)]
pub enum BuildEvent {
    /// The whole text of the source document.
    SourceRead(String),
    /// Whether the output directory exists.
    OutputExists(bool),
    /// The old output directory is gone.
    Removed,
    /// The new output directory is there.
    Created,
    /// The file was written.
    Written,
    /// The last action failed, with the reason.
    Failed(String),
}

/// What the caller is to do next.
#[derive(Debug)]
pub enum BuildAction {
    /// Read the source document as text.
    ReadSource,
    /// Find out whether the output directory exists.
    ProbeOutput,
    /// Remove the output directory with all that is in it.
    RemoveOutput,
    /// Create the output directory.
    CreateOutput,
    /// Write `contents` to the file `name` in the output directory.
    WriteFile { name: String, contents: String },
    /// The build is complete, with this many slides.
    Finish(usize),
    /// The build has failed.
    Fail(BuildError),
}

/// The name of the file of slide `index`.
pub open spec fn slide_file_name(index: nat) -> Seq<char> {
    decimal(index) + ".html"@
}

/// Each slide has a file name of its own: the file of one index is never the
/// file of another, and the name past the last slide names no file of the
/// build.
pub proof fn lemma_slide_files_differ(first: nat, second: nat)
    requires
        first != second,
    ensures
        slide_file_name(first) != slide_file_name(second),
{
    if slide_file_name(first) == slide_file_name(second) {
        let tail = ".html"@;
        let one = decimal(first);
        let other = decimal(second);
        assert((one + tail).len() == (other + tail).len());
        assert(one =~= (one + tail).subrange(0, one.len() as int));
        assert(other =~= (other + tail).subrange(0, other.len() as int));
        lemma_decimal_tells_numbers_apart(first, second);
    }
}

/// A slide is found where it was written. The request for the file name of
/// a slide resolves to that one name, so that under the directory of a build
/// the path that is looked up is the path of the slide's file.
pub proof fn lemma_slide_file_is_resolved(root: Seq<char>, index: nat)
    ensures
        resolved_components(slide_file_name(index)) == seq![slide_file_name(index)],
        resolved_path(root, slide_file_name(index)) == join_path(
            root,
            seq![slide_file_name(index)],
        ),
{
    let name = slide_file_name(index);
    let tail = ".html"@;
    let digits = decimal(index);
    reveal_strlit(".html");
    lemma_decimal_holds_digits(index);
    assert forall|i: int| 0 <= i < name.len() implies #[trigger] name[i] != SEPARATOR && name[i]
        != '%' by {
        if i < digits.len() {
            assert(name[i] == digits[i]);
        } else {
            assert(name[i] == tail[i - digits.len()]);
        }
    }
    assert(!name.contains(SEPARATOR));
    assert(!name.contains('%'));
    assert(name.len() >= 6);
    assert(classify(name) == SegmentKind::Normal);
    let empty = Seq::<char>::empty();
    assert(split_segments(empty) =~= seq![empty]);
    lemma_split_append_name(empty, name);
    assert(empty + name =~= name);
    assert(split_segments(name) =~= seq![name]);
    assert(steps_of_text(name) =~= seq![StepView::Push(name)]);
    assert(seq![name].drop_last() =~= Seq::<Seq<char>>::empty());
    reveal_with_fuel(steps_of, 2);
    assert(steps_of(seq![name]) =~= seq![StepView::Push(name)]);
    assert(seq![StepView::Push(name)].drop_last() =~= Seq::<StepView>::empty());
    reveal_with_fuel(apply_steps, 2);
    assert(resolved_components(name) =~= seq![name]);
}

/// The name of the file of slide `index`: the index in decimal, then `.html`.
pub fn file_name_for(index: usize) -> (name: String)
    ensures
        name@ == slide_file_name(index as nat),
{
    let mut name = to_decimal(index as u64);
    name.append(".html");
    name
}

/// Starts a build with the given page template: the source is read first.
pub fn build(template: &str) -> (next: (BuildState, BuildAction))
    ensures
        next.0.template@ == template@,
        next.0.stage is AwaitingSource,
        next.1 is ReadSource,
{
    (
        BuildState { template: String::from_str(template), stage: Stage::AwaitingSource },
        BuildAction::ReadSource,
    )
}

/// What follows once `written` slides of `contents` have their files: the
/// end of the build when none is left, else the file of the next slide or
/// the failure of its page. The file holds the page of that slide, and the
/// build fails exactly where the slide has no page.
pub open spec fn follows(
    template: Seq<char>,
    contents: Vec<String>,
    written: usize,
    next: (BuildState, BuildAction),
) -> bool {
    if written >= contents@.len() {
        next.0.stage is Done && next.1 == BuildAction::Finish(contents@.len() as usize)
    } else {
        let page = slide_page(
            template,
            written as nat,
            contents@[written as int]@,
            contents@.len(),
        );
        ||| {
            &&& next.0.stage == (Stage::Writing { contents, written: (written + 1) as usize })
            &&& next.1 matches BuildAction::WriteFile { name, contents: written_page }
            &&& name@ == slide_file_name(written as nat)
            &&& page == Some(written_page@)
        }
        ||| {
            &&& next.0.stage is Done
            &&& next.1 matches BuildAction::Fail(error)
            &&& error is Template
            &&& page is None
        }
    }
}

/// Hands out the file of the next slide, or ends the build when every slide
/// has its file. A slide whose page cannot be rendered ends the build.
pub fn write_next(template: String, contents: Vec<String>, written: usize) -> (next: (
    BuildState,
    BuildAction,
))
    ensures
        next.0.template == template,
        follows(template@, contents, written, next),
{
    let total = contents.len();
    if written >= total {
        return (BuildState { template, stage: Stage::Done }, BuildAction::Finish(total));
    }
    match render(contents[written].as_str(), written, total, template.as_str()) {
        Ok(page) => {
            let name = file_name_for(written);
            (
                BuildState { template, stage: Stage::Writing { contents, written: written + 1 } },
                BuildAction::WriteFile { name, contents: page },
            )
        },
        Err(error) => (
            BuildState { template, stage: Stage::Done },
            BuildAction::Fail(BuildError::Template(error)),
        ),
    }
}

/// Whether `event` is what a build at `stage` waits for.
pub open spec fn awaited(stage: Stage, event: BuildEvent) -> bool {
    match (stage, event) {
        (Stage::AwaitingSource, BuildEvent::SourceRead(_)) => true,
        (Stage::AwaitingProbe { .. }, BuildEvent::OutputExists(_)) => true,
        (Stage::AwaitingRemoval { .. }, BuildEvent::Removed) => true,
        (Stage::AwaitingDirectory { .. }, BuildEvent::Created) => true,
        (Stage::Writing { .. }, BuildEvent::Written) => true,
        _ => false,
    }
}

/// Takes a build one step further.
///
/// The source is split into slides and each slide is rendered to HTML as soon
/// as it is read. An output directory that exists is removed before the new
/// one is created. Then the slides are written in order, each to the file
/// named by its index, and each page is expanded when its turn comes, so
/// that a page that fails leaves the earlier files in place. A failure that
/// the caller reports ends the build, and so does an event that the stage
/// did not wait for.
pub fn advance(state: BuildState, event: BuildEvent) -> (next: (BuildState, BuildAction))
    ensures
        next.0.template == state.template,
        event matches BuildEvent::Failed(reason) ==> (!(state.stage is Done) ==> next.0.stage is Done
            && next.1 == BuildAction::Fail(BuildError::Io(reason))),
        !(event is Failed) && !awaited(state.stage, event) ==> next.0.stage is Done && next.1
            == BuildAction::Fail(BuildError::OutOfTurn),
        state.stage is Done ==> next.0.stage is Done && next.1 == BuildAction::Fail(
            BuildError::OutOfTurn,
        ),
        match (state.stage, event) {
            (Stage::AwaitingSource, BuildEvent::SourceRead(text)) => {
                &&& next.0.stage matches Stage::AwaitingProbe { contents }
                    && views(contents@) == slide_html(text@)
                &&& next.1 is ProbeOutput
            },
            (Stage::AwaitingProbe { contents }, BuildEvent::OutputExists(exists)) => if exists {
                &&& next.0.stage == (Stage::AwaitingRemoval { contents })
                &&& next.1 is RemoveOutput
            } else {
                &&& next.0.stage == (Stage::AwaitingDirectory { contents })
                &&& next.1 is CreateOutput
            },
            (Stage::AwaitingRemoval { contents }, BuildEvent::Removed) => {
                &&& next.0.stage == (Stage::AwaitingDirectory { contents })
                &&& next.1 is CreateOutput
            },
            (Stage::AwaitingDirectory { contents }, BuildEvent::Created) => follows(
                state.template@,
                contents,
                0,
                next,
            ),
            (Stage::Writing { contents, written }, BuildEvent::Written) => follows(
                state.template@,
                contents,
                written,
                next,
            ),
            _ => true,
        },
{
    let BuildState { template, stage } = state;
    match (stage, event) {
        (Stage::Done, _) => (
            BuildState { template, stage: Stage::Done },
            BuildAction::Fail(BuildError::OutOfTurn),
        ),
        (_, BuildEvent::Failed(reason)) => (
            BuildState { template, stage: Stage::Done },
            BuildAction::Fail(BuildError::Io(reason)),
        ),
        (Stage::AwaitingSource, BuildEvent::SourceRead(text)) => {
            let contents = slide_contents(text.as_str());
            (
                BuildState { template, stage: Stage::AwaitingProbe { contents } },
                BuildAction::ProbeOutput,
            )
        },
        (Stage::AwaitingProbe { contents }, BuildEvent::OutputExists(exists)) => {
            if exists {
                (
                    BuildState { template, stage: Stage::AwaitingRemoval { contents } },
                    BuildAction::RemoveOutput,
                )
            } else {
                (
                    BuildState { template, stage: Stage::AwaitingDirectory { contents } },
                    BuildAction::CreateOutput,
                )
            }
        },
        (Stage::AwaitingRemoval { contents }, BuildEvent::Removed) => (
            BuildState { template, stage: Stage::AwaitingDirectory { contents } },
            BuildAction::CreateOutput,
        ),
        (Stage::AwaitingDirectory { contents }, BuildEvent::Created) => write_next(
            template,
            contents,
            0,
        ),
        (Stage::Writing { contents, written }, BuildEvent::Written) => write_next(
            template,
            contents,
            written,
        ),
        _ => (BuildState { template, stage: Stage::Done }, BuildAction::Fail(BuildError::OutOfTurn)),
    }
}

} // verus!
