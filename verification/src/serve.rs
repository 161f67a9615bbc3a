//! Answering one request for a file under the served root.
//!
//! Looking at the disk is the caller's part. The decisions are made here:
//! the caller starts with `serve_static_files`, does what the returned
//! action asks, reports how it went to `advance`, and goes on until the
//! action is a response.

use vstd::prelude::*;
use vstd::string::StringExecFns;
use crate::containment::is_within;
use crate::content_type::{content_type, content_type_of};
use crate::decimal::{decimal, to_decimal};
use crate::resolve::{get_path, resolved_path};

verus! {

/// The directory whose files are served.
#[derive(Debug)]
pub struct StaticFile {
    pub root: String,
}

/// What the disk says of a path that exists.
#[derive(Clone, Copy, Debug)]
pub struct FileMeta {
    /// Whether the path names a regular file.
    pub is_file: bool,
    /// The length of the file in bytes.
    pub len: u64,
}

/// The body of a response.
#[derive(Debug)]
pub enum Body {
    /// The given text.
    Text(String),
    /// The bytes of the file that was opened for this request.
    File,
}

/// A response to one request.
#[derive(Debug)]
pub struct Response {
    pub status: u16,
    pub content_type: String,
    /// The value of the `Content-Length` header, where one is set.
    pub content_length: Option<String>,
    pub body: Body,
}

/// How far the answer to a request has come.
#[derive(Debug)]
pub enum ServeState {
    /// The metadata of `path` was asked for.
    AwaitingMetadata { requested: String, path: String },
    /// `path` is a regular file of `len` bytes and is being opened.
    AwaitingOpen { requested: String, path: String, len: u64 },
    /// The response was given.
    Done,
}

/// What the caller found on disk.
#[derive(Clone, Copy, Debug)]
pub enum ServeEvent {
    /// The metadata of the path, or `None` where there is none to be had.
    Metadata(Option<FileMeta>),
    /// Whether the file could be opened.
    Opened(bool),
}

/// What the caller is to do next.
#[derive(Debug)]
pub enum ServeAction {
    /// Ask the disk for the metadata of this path.
    QueryMetadata(String),
    /// Open the file at this path for reading.
    OpenFile(String),
    /// Send this response; the request is done.
    Respond(Response),
}

/// A character that `{:?}` writes as it is: a printable ASCII character
/// other than the quotes and the backslash.
pub open spec fn is_simple_char(c: char) -> bool {
    ' ' <= c && c <= '~' && c != '"' && c != '\'' && c != '\\'
}

/// Text of simple characters only.
pub open spec fn is_simple_text(text: Seq<char>) -> bool {
    forall|i: int| 0 <= i < text.len() ==> is_simple_char(#[trigger] text[i])
}

/// What `{:?}` writes for a string that is not simple: the string in double
/// quotes, with the characters escaped that a Rust string literal would need
/// escaped.
pub uninterp spec fn debug_quoted_escapes(text: Seq<char>) -> Seq<char>;

/// What `{:?}` writes for a string: simple text between two double quotes,
/// and other text in double quotes with its escapes.
pub open spec fn debug_quoted(text: Seq<char>) -> Seq<char> {
    if is_simple_text(text) {
        seq!['"'] + text + seq!['"']
    } else {
        debug_quoted_escapes(text)
    }
}

/// Formats `text` with `{:?}`, which writes a double quote, the characters
/// of the string, each escaped as `char::escape_debug` escapes it, and a
/// double quote. A printable ASCII character that is no quote and no
/// backslash has no escape.
#[verifier::external_body]
fn debug_quote(text: &str) -> (quoted: String)
    ensures
        is_simple_text(text@) ==> quoted@ == seq!['"'] + text@ + seq!['"'],
        !is_simple_text(text@) ==> quoted@ == debug_quoted_escapes(text@),
{
    format!("{:?}", text)
}

/// The body of the response to a request for what is not there.
pub open spec fn not_found_text(requested: Seq<char>) -> Seq<char> {
    "Couldn't locate requested file "@ + debug_quoted(requested)
}

/// `text` holds `part` at `at`.
pub open spec fn holds_at(text: Seq<char>, part: Seq<char>, at: int) -> bool {
    0 <= at && at + part.len() <= text.len() && text.subrange(at, at + part.len()) == part
}

/// The request is echoed. A request of simple characters stands in the body
/// of its 404 response as the client sent it, between two double quotes.
pub proof fn lemma_simple_request_is_echoed(requested: Seq<char>)
    requires
        is_simple_text(requested),
    ensures
        not_found_text(requested) == "Couldn't locate requested file "@ + seq!['"'] + requested
            + seq!['"'],
        holds_at(
            not_found_text(requested),
            requested,
            "Couldn't locate requested file "@.len() as int + 1,
        ),
{
    let lead = "Couldn't locate requested file "@;
    let body = not_found_text(requested);
    assert(body =~= lead + seq!['"'] + requested + seq!['"']);
    assert(body.subrange(lead.len() as int + 1, lead.len() as int + 1 + requested.len()) =~= requested);
}

/// `response` says that `requested` was not found: status 404, an HTML body
/// that names the requested path, no length header.
pub open spec fn is_not_found(response: Response, requested: Seq<char>) -> bool {
    &&& response.status == 404
    &&& response.content_type@ == "text/html"@
    &&& response.content_length is None
    &&& response.body matches Body::Text(text) && text@ == not_found_text(requested)
}

/// `response` hands out the file at `path`, `len` bytes long: status 200, the
/// content type of the path's extension, the length in decimal, the file as
/// body.
pub open spec fn is_file_response(response: Response, path: Seq<char>, len: u64) -> bool {
    &&& response.status == 200
    &&& response.content_type@ == content_type_of(path)
    &&& response.content_length matches Some(length) && length@ == decimal(len as nat)
    &&& response.body is File
}

/// `response` says that the caller reported what the state did not ask for.
pub open spec fn is_out_of_turn(response: Response) -> bool {
    &&& response.status == 500
    &&& response.content_type@ == "text/html"@
    &&& response.content_length is None
    &&& response.body matches Body::Text(text) && text@ == "Unexpected event"@
}

/// The response to a request for what is not there.
pub fn not_found(requested: &str) -> (response: Response)
    ensures
        is_not_found(response, requested@),
{
    let mut text = String::from_str("Couldn't locate requested file ");
    text.append(debug_quote(requested).as_str());
    Response {
        status: 404,
        content_type: String::from_str("text/html"),
        content_length: None,
        body: Body::Text(text),
    }
}

/// The response that hands out the file at `path`.
pub fn file_response(path: &str, len: u64) -> (response: Response)
    ensures
        is_file_response(response, path@, len),
{
    Response {
        status: 200,
        content_type: content_type(path),
        content_length: Some(to_decimal(len)),
        body: Body::File,
    }
}

fn out_of_turn() -> (response: Response)
    ensures
        is_out_of_turn(response),
{
    Response {
        status: 500,
        content_type: String::from_str("text/html"),
        content_length: None,
        body: Body::Text(String::from_str("Unexpected event")),
    }
}

/// Starts the answer to a request for `requested`: resolves it under the
/// served root and asks for the metadata of the resolved path. That path,
/// the only one that is ever queried or opened for the request, is the root
/// or lies below it.
pub fn serve_static_files(served: &StaticFile, requested: &str) -> (next: (ServeState, ServeAction))
    ensures
        next.0 matches ServeState::AwaitingMetadata { requested: kept, path }
            && kept@ == requested@
            && path@ == resolved_path(served.root@, requested@)
            && is_within(served.root@, path@),
        next.1 matches ServeAction::QueryMetadata(asked)
            && asked@ == resolved_path(served.root@, requested@)
            && is_within(served.root@, asked@),
{
    let path = get_path(served.root.as_str(), requested);
    let asked = path.clone();
    (
        ServeState::AwaitingMetadata { requested: String::from_str(requested), path },
        ServeAction::QueryMetadata(asked),
    )
}

/// Takes the answer to a request one step further.
///
/// Without metadata, or with metadata of something that is no regular file,
/// the request is answered with 404. A regular file is opened next; once it
/// is open the request is answered with 200 and the file, and with 404 if it
/// could not be opened after all. An event that the state did not ask for
/// ends the request with 500.
pub fn advance(state: ServeState, event: ServeEvent) -> (next: (ServeState, ServeAction))
    ensures
        match (state, event) {
            (ServeState::AwaitingMetadata { requested, path }, ServeEvent::Metadata(found)) => {
                match found {
                    Some(meta) if meta.is_file => {
                        &&& next.0 == (ServeState::AwaitingOpen { requested, path, len: meta.len })
                        &&& next.1 matches ServeAction::OpenFile(opened) && opened@ == path@
                    },
                    _ => {
                        &&& next.0 is Done
                        &&& next.1 matches ServeAction::Respond(response) && is_not_found(
                            response,
                            requested@,
                        )
                    },
                }
            },
            (ServeState::AwaitingOpen { requested, path, len }, ServeEvent::Opened(opened)) => {
                &&& next.0 is Done
                &&& next.1 matches ServeAction::Respond(response) && if opened {
                    is_file_response(response, path@, len)
                } else {
                    is_not_found(response, requested@)
                }
            },
            _ => {
                &&& next.0 is Done
                &&& next.1 matches ServeAction::Respond(response) && is_out_of_turn(response)
            },
        },
{
    match (state, event) {
        (ServeState::AwaitingMetadata { requested, path }, ServeEvent::Metadata(found)) => {
            match found {
                Some(meta) if meta.is_file => {
                    let opened = path.clone();
                    (
                        ServeState::AwaitingOpen { requested, path, len: meta.len },
                        ServeAction::OpenFile(opened),
                    )
                },
                _ => (ServeState::Done, ServeAction::Respond(not_found(requested.as_str()))),
            }
        },
        (ServeState::AwaitingOpen { requested, path, len }, ServeEvent::Opened(opened)) => {
            if opened {
                (ServeState::Done, ServeAction::Respond(file_response(path.as_str(), len)))
            } else {
                (ServeState::Done, ServeAction::Respond(not_found(requested.as_str())))
            }
        },
        _ => (ServeState::Done, ServeAction::Respond(out_of_turn())),
    }
}

} // verus!
