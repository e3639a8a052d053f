//! Responses and their two renderings: the body as the handler gave it, or
//! wrapped in a JSON envelope with the status and the time.

use crate::date::Date;
use crate::decimal::{decimal, push_decimal};
use crate::status::Status;
use vstd::prelude::*;
use vstd::string::*;
use vstd::utf8::encode_utf8;

verus! {

/// The number of bytes that `text` takes in UTF-8.
pub open spec fn utf8_len(text: Seq<char>) -> nat {
    encode_utf8(text).len()
}

/// The JSON envelope round a response's content. The content goes in as it
/// is, without escaping: it has to be valid JSON already.
pub open spec fn envelope(content: Seq<char>, status: Status, time: Seq<char>) -> Seq<char> {
    "{\"content\":"@ + content + ",\"status\":\""@ + status.text() + "\",\"time\":\""@ + time
        + "\"}"@
}

/// The body on the wire: the content itself in raw mode, else its envelope.
pub open spec fn body_text(content: Seq<char>, status: Status, time: Seq<char>, raw: bool) -> Seq<
    char,
> {
    if raw {
        content
    } else {
        envelope(content, status, time)
    }
}

/// The status line and the header lines for a body of `length` bytes, up to
/// and including the empty line that ends them.
pub open spec fn head_text(status: Status, length: nat) -> Seq<char> {
    "HTTP/1.1 "@ + status.text() + "\r\nContent-Length: "@ + decimal(length)
        + "\r\nContent-Type: application/json\r\n\r\n"@
}

/// A whole response on the wire: the head, which announces the byte length
/// of exactly the body that follows it, and that body.
pub open spec fn wire_text(status: Status, body: Seq<char>) -> Seq<char> {
    head_text(status, utf8_len(body)) + body
}

/// The content of every not-found response.
pub open spec fn not_found_content() -> Seq<char> {
    "\"That doesn't exist on the menu\""@
}

/// The content of every bad-request response.
pub open spec fn bad_request_content() -> Seq<char> {
    "\"Are you sure about that?\""@
}

/// The content of every unprocessable-entity response.
pub open spec fn unprocessable_entity_content() -> Seq<char> {
    "\"I don't know how to handle those inputs, Hal.\""@
}

/// The content of every server-error response.
pub open spec fn server_error_content() -> Seq<char> {
    "\"The server did not like that one\""@
}

/// A response to a request.
#[derive(Clone, Debug, PartialEq)]
pub struct Response {
    /// The whole response as it goes over the wire, rendered when the
    /// response was made: status line, header lines and body.
    pub header: String,
    /// The content, already formatted by whoever made the response.
    pub content: String,
    /// The status.
    pub status: Status,
    /// When the response was made.
    pub time: Date,
    /// Whether the body on the wire is the content itself rather than its
    /// envelope.
    pub raw: bool,
}

impl Response {
    /// The body of this response in the given mode.
    pub open spec fn body(&self, raw: bool) -> Seq<char> {
        body_text(self.content@, self.status, self.time.formatted@, raw)
    }

    /// Whether the wire text is the one that belongs to the other fields,
    /// and the time's text to its timestamp.
    pub open spec fn wf(&self) -> bool {
        &&& self.time.wf()
        &&& self.header@ == wire_text(self.status, self.body(self.raw))
    }

    /// Whether this is the response that `status`, `content` and `raw` give
    /// at the time it holds.
    pub open spec fn is_made_of(&self, status: Status, content: Seq<char>, raw: bool) -> bool {
        &&& self.wf()
        &&& self.status == status
        &&& self.content@ == content
        &&& self.raw == raw
    }

    /// A `200 OK` response with the given content.
    pub fn ok(contents: &str, raw_response: bool) -> (response: Response)
        ensures
            response.is_made_of(Status::OK, contents@, raw_response),
    {
        Response::new(Status::OK, contents, raw_response)
    }

    /// The `404 NOT FOUND` response. Its content never changes.
    pub fn not_found() -> (response: Response)
        ensures
            response.is_made_of(Status::NotFound, not_found_content(), false),
    {
        Response::new(Status::NotFound, "\"That doesn't exist on the menu\"", false)
    }

    /// The `400 BAD REQUEST` response. Its content never changes.
    pub fn bad_request() -> (response: Response)
        ensures
            response.is_made_of(Status::BadRequest, bad_request_content(), false),
    {
        Response::new(Status::BadRequest, "\"Are you sure about that?\"", false)
    }

    /// The `422 UNPROCESSABLE ENTITY` response. Its content never changes.
    pub fn unprocessable_entity() -> (response: Response)
        ensures
            response.is_made_of(
                Status::UnprocessableEntity,
                unprocessable_entity_content(),
                false,
            ),
    {
        Response::new(
            Status::UnprocessableEntity,
            "\"I don't know how to handle those inputs, Hal.\"",
            false,
        )
    }

    /// The `500 INTERNAL SERVER ERROR` response. Its content never changes.
    pub fn server_error() -> (response: Response)
        ensures
            response.is_made_of(Status::ServerError, server_error_content(), false),
    {
        Response::new(Status::ServerError, "\"The server did not like that one\"", false)
    }

    /// A response made now: the time is read from the system clock.
    pub fn new(status: Status, contents: &str, raw_response: bool) -> (response: Response)
        ensures
            response.is_made_of(status, contents@, raw_response),
    {
        Response::at(status, contents, raw_response, Date::new())
    }

    /// The response that `status`, `contents` and `raw_response` give at
    /// the time `time`.
    pub fn at(status: Status, contents: &str, raw_response: bool, time: Date) -> (response:
        Response)
        requires
            time.wf(),
        ensures
            response.is_made_of(status, contents@, raw_response),
            response.time == time,
    {
        Response {
            content: String::from_str(contents),
            status,
            time,
            header: String::new(),
            raw: raw_response,
        }.add_http_headers(raw_response)
    }

    /// This response with its wire text rendered in the given mode.
    fn add_http_headers(self, raw_response: bool) -> (response: Response)
        requires
            self.time.wf(),
        ensures
            response.is_made_of(self.status, self.content@, raw_response),
            response.time == self.time,
            response.content == self.content,
    {
        let body = self.render_body(raw_response);
        let mut header = self.head(raw_response);
        header.append(body.as_str());
        Response {
            header,
            content: self.content,
            status: self.status,
            time: self.time,
            raw: raw_response,
        }
    }

    /// The body on the wire in the given mode.
    pub fn render_body(&self, raw_response: bool) -> (body: String)
        ensures
            body@ == self.body(raw_response),
    {
        if raw_response {
            self.content.clone()
        } else {
            let mut body = String::from_str("{\"content\":");
            body.append(self.content.as_str());
            body.append(",\"status\":\"");
            body.append(self.status.as_str());
            body.append("\",\"time\":\"");
            body.append(self.time.formatted.as_str());
            body.append("\"}");
            body
        }
    }

    /// The status line and header lines that go before the body in the
    /// given mode. The length they announce is that of `render_body`.
    pub fn head(&self, raw_response: bool) -> (head: String)
        ensures
            head@ == head_text(self.status, utf8_len(self.body(raw_response))),
    {
        let length = self.len(raw_response);
        let mut head = String::from_str("HTTP/1.1 ");
        head.append(self.status.as_str());
        head.append("\r\nContent-Length: ");
        push_decimal(&mut head, length as u64);
        head.append("\r\nContent-Type: application/json\r\n\r\n");
        head
    }

    /// The number of bytes of the body on the wire in the given mode.
    pub fn len(&self, raw_response: bool) -> (length: usize)
        ensures
            length == utf8_len(self.body(raw_response)),
    {
        let body = self.render_body(raw_response);
        body.as_str().as_bytes().len()
    }

    /// Whether the body on the wire in the given mode has no bytes at all.
    pub fn is_empty(&self, raw_response: bool) -> (empty: bool)
        ensures
            empty == (utf8_len(self.body(raw_response)) == 0),
            empty == (self.body(raw_response).len() == 0),
            empty ==> raw_response,
    {
        let body = self.render_body(raw_response);
        proof {
            lemma_utf8_len_zero(body@);
            if !raw_response {
                lemma_envelope_nonempty(self.content@, self.status, self.time.formatted@);
            }
        }
        body.as_str().as_bytes().len() == 0
    }

    /// The whole response as it goes over the wire.
    pub fn to_string(&self) -> (text: String)
        ensures
            text@ == self.header@,
    {
        self.header.clone()
    }
}

/// Only the empty text takes no bytes.
pub proof fn lemma_utf8_len_zero(text: Seq<char>)
    ensures
        utf8_len(text) == 0 <==> text.len() == 0,
{
    if text.len() > 0 {
        let first = vstd::utf8::encode_scalar(text[0] as u32);
        assert(first.len() >= 1);
        assert(encode_utf8(text) == first + encode_utf8(text.drop_first()));
    }
}

/// An envelope is never empty.
pub proof fn lemma_envelope_nonempty(content: Seq<char>, status: Status, time: Seq<char>)
    ensures
        envelope(content, status, time).len() > 0,
{
    reveal_strlit("\"}");
}

/// Two responses made of the same status, content and mode render alike in
/// raw mode whenever they were made, and alike in every way when they were
/// made within the same second. This holds in particular of two calls of
/// one of the constructors with fixed content.
pub proof fn law_same_parts_render_alike(
    first: Response,
    second: Response,
    status: Status,
    content: Seq<char>,
    raw: bool,
)
    requires
        first.is_made_of(status, content, raw),
        second.is_made_of(status, content, raw),
    ensures
        first.content@ == second.content@,
        first.status == second.status,
        first.body(true) == second.body(true),
        first.time.timestamp == second.time.timestamp ==> {
            &&& first.body(false) == second.body(false)
            &&& first.header@ == second.header@
        },
        raw ==> first.header@ == second.header@,
{
}

/// The length that a response's wire text announces is the byte length of
/// the body that follows the head, in either mode and for every content,
/// the empty one included.
pub proof fn law_announced_length_is_body_length(response: Response)
    requires
        response.wf(),
    ensures
        response.header@ == head_text(response.status, utf8_len(response.body(response.raw)))
            + response.body(response.raw),
{
}

} // verus!
