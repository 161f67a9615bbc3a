//! Choosing the content type of a file from the extension of its name.

use vstd::prelude::*;
use vstd::string::StringExecFns;
use crate::segments::{classify, classify_segment, split, split_segments, views, SegmentKind};
use crate::text::chars_of;

verus! {

/// The last of `segments` that is no empty or current-directory segment, if
/// it is a name.
pub open spec fn last_name(segments: Seq<Seq<char>>) -> Option<Seq<char>>
    decreases segments.len(),
{
    if segments.len() == 0 {
        None
    } else {
        match classify(segments.last()) {
            SegmentKind::Normal => Some(segments.last()),
            SegmentKind::Parent => None,
            SegmentKind::Ignorable => last_name(segments.drop_last()),
        }
    }
}

/// The file name of a path: its last name, unless the path ends in `..` or
/// holds no name at all.
pub open spec fn file_name_of(path: Seq<char>) -> Option<Seq<char>> {
    last_name(split_segments(path))
}

/// Where the last `.` of `name` stands, if it holds one.
pub open spec fn last_dot(name: Seq<char>) -> Option<int>
    decreases name.len(),
{
    if name.len() == 0 {
        None
    } else if name.last() == '.' {
        Some(name.len() - 1)
    } else {
        last_dot(name.drop_last())
    }
}

/// The extension of a file name: what follows its last `.`, unless the name
/// holds no `.` or only the one that it starts with.
pub open spec fn extension_of_name(name: Seq<char>) -> Option<Seq<char>> {
    match last_dot(name) {
        None => None,
        Some(dot) => if dot == 0 {
            None
        } else {
            Some(name.subrange(dot + 1, name.len() as int))
        },
    }
}

/// The extension of the file name of a path.
pub open spec fn extension_of(path: Seq<char>) -> Option<Seq<char>> {
    match file_name_of(path) {
        None => None,
        Some(name) => extension_of_name(name),
    }
}

/// The view of an optional string.
pub open spec fn optional_view(text: Option<String>) -> Option<Seq<char>> {
    match text {
        None => None,
        Some(t) => Some(t@),
    }
}

/// The first media type that the table of known extensions lists for an
/// extension, compared without regard to case.
pub uninterp spec fn known_media_type(extension: Seq<char>) -> Option<Seq<char>>;

/// The content type of a file whose extension has `found` as its entry in the
/// table: the entry, or `application/octet-stream` without one.
pub open spec fn media_type_or_default(found: Option<Seq<char>>) -> Seq<char> {
    match found {
        Some(media_type) => media_type,
        None => "application/octet-stream"@,
    }
}

/// The content type of the file at `path`.
pub open spec fn content_type_of(path: Seq<char>) -> Seq<char> {
    match extension_of(path) {
        None => "application/octet-stream"@,
        Some(extension) => media_type_or_default(known_media_type(extension)),
    }
}

/// Looks `extension` up with `mime_guess::from_ext` and takes the guess's
/// first entry with `first_raw`. The table is fixed, so the entry is a
/// function of the extension alone.
#[verifier::external_body]
fn lookup(extension: &str) -> (found: Option<String>)
    ensures
        optional_view(found) == known_media_type(extension@),
{
    mime_guess::from_ext(extension).first_raw().map(str::to_owned)
}

/// The file name of `path`.
pub fn file_name(path: &str) -> (name: Option<String>)
    ensures
        optional_view(name) == file_name_of(path@),
{
    let mut segments = split(path);
    while segments.len() > 0
        invariant
            last_name(views(segments@)) == file_name_of(path@),
        decreases segments.len(),
    {
        let ghost all = views(segments@);
        let last = segments.pop().unwrap();
        assert(views(segments@) =~= all.drop_last());
        assert(all.last() == last@);
        match classify_segment(last.as_str()) {
            SegmentKind::Normal => {
                return Some(last);
            },
            SegmentKind::Parent => {
                return None;
            },
            SegmentKind::Ignorable => {},
        }
    }
    None
}

/// The extension of the file name `name`.
pub fn extension_of_file_name(name: &str) -> (extension: Option<String>)
    ensures
        optional_view(extension) == extension_of_name(name@),
{
    let chars = chars_of(name);
    let mut end: usize = chars.len();
    assert(name@.take(end as int) =~= name@);
    while end > 0
        invariant
            chars@ == name@,
            end <= chars.len(),
            last_dot(name@) == last_dot(name@.take(end as int)),
        decreases end,
    {
        assert(name@.take(end as int).drop_last() =~= name@.take(end - 1));
        if chars[end - 1] == '.' {
            if end - 1 == 0 {
                return None;
            }
            return Some(name.substring_char(end, chars.len()).to_owned());
        }
        end = end - 1;
    }
    None
}

/// The extension of the file name of `path`.
pub fn extension(path: &str) -> (extension: Option<String>)
    ensures
        optional_view(extension) == extension_of(path@),
{
    match file_name(path) {
        None => None,
        Some(name) => extension_of_file_name(name.as_str()),
    }
}

/// The content type for an entry of the table of known extensions, or for
/// the lack of one: an extension that the table does not know, like a name
/// without extension, is served as `application/octet-stream`.
pub fn content_type_for(found: Option<String>) -> (content_type: String)
    ensures
        content_type@ == media_type_or_default(optional_view(found)),
        found is None ==> content_type@ == "application/octet-stream"@,
{
    match found {
        Some(media_type) => media_type,
        None => String::from_str("application/octet-stream"),
    }
}

/// The content type of the file at `path`, by the extension of its name.
pub fn content_type(path: &str) -> (content_type: String)
    ensures
        content_type@ == content_type_of(path@),
        extension_of(path@) is None ==> content_type@ == "application/octet-stream"@,
{
    match extension(path) {
        None => content_type_for(None),
        Some(extension) => content_type_for(lookup(extension.as_str())),
    }
}

} // verus!
