//! What a connection handler decides between its reads and its one write.
//!
//! The handler reads a request line, then header lines up to an empty one,
//! then the body if a length was announced. Each read is the caller's to
//! make; what was read is handed to the function for the state the
//! connection is in, which says what to do next. A request that was read
//! in full is looked up in the route table and answered by `respond`.

use crate::decimal::{parse_unsigned, parse_usize};
use crate::request::Request;
use crate::response::{not_found_content, Response};
use crate::route::{is_first_match, match_route, Route};
use crate::status::Status;
use crate::text::{
    after_first, before_first, chars_of, eq_ignore_ascii_case, find_char, lemma_index_of,
    same_text_ignoring_case, split, split_ranges, trim, trim_range,
};
use vstd::prelude::*;
use vstd::string::*;
use vstd::utf8::{decode_utf8, valid_utf8};

verus! {

/// The text that `String::from_utf8_lossy` makes of `bytes`.
pub uninterp spec fn lossy_text(bytes: Seq<u8>) -> Seq<char>;

/// `String::from_utf8_lossy` turns bytes into text. Bytes that are valid
/// UTF-8 give the text they encode; every ill-formed part of other bytes is
/// replaced by U+FFFD, which the name `lossy_text` stands for.
#[verifier::external_body]
fn text_of_bytes(bytes: &Vec<u8>) -> (text: String)
    ensures
        text@ == lossy_text(bytes@),
        valid_utf8(bytes@) ==> text@ == decode_utf8(bytes@),
{
    String::from_utf8_lossy(bytes).into_owned()
}

/// The method and the target of a request line: the line without the white
/// space at its ends has to consist of exactly three parts with single
/// spaces between them, of which the third, the protocol version, is not
/// read. Any other line is malformed.
pub open spec fn request_line_parts(line: Seq<char>) -> Option<(Seq<char>, Seq<char>)> {
    let parts = split(trim(line), ' ');
    if parts.len() == 3 {
        Some((parts[0], parts[1]))
    } else {
        None
    }
}

/// Whether a line ends the headers: it holds white space only.
pub open spec fn is_blank(line: Seq<char>) -> bool {
    trim(line).len() == 0
}

/// The name of a header line: what stands before its first colon, trimmed.
pub open spec fn field_name(line: Seq<char>) -> Seq<char> {
    trim(before_first(line, ':'))
}

/// The value of a header line: what stands after its first colon, trimmed.
pub open spec fn field_value(line: Seq<char>) -> Seq<char> {
    trim(after_first(line, ':'))
}

/// Whether a header line gives the length of the body. The case of the
/// name's letters does not count.
pub open spec fn names_content_length(line: Seq<char>) -> bool {
    eq_ignore_ascii_case(field_name(line), "content-length"@)
}

/// The length that a `Content-Length` line announces; zero where its value
/// is no number that fits a `usize`.
pub open spec fn announced_length(line: Seq<char>) -> nat {
    match parse_unsigned(field_value(line), usize::MAX as nat) {
        Some(length) => length,
        None => 0,
    }
}

/// The body length known after a header line, given the one known before
/// it: the latest `Content-Length` line decides.
pub open spec fn length_after(known: nat, line: Seq<char>) -> nat {
    if names_content_length(line) {
        announced_length(line)
    } else {
        known
    }
}

/// The part of a request target that routes are matched against: what
/// stands before its first `?`.
pub open spec fn lookup_path(target: Seq<char>) -> Seq<char> {
    before_first(target, '?')
}

/// A request whose request line was read and whose headers are being read.
#[derive(Debug, PartialEq)]
pub struct HeaderReader {
    /// The method of the request line.
    pub method: String,
    /// The target of the request line, query string included.
    pub target: String,
    /// The body length that the headers read so far announce.
    pub content_length: usize,
}

/// A request whose headers announced a body that is still to be read.
#[derive(Debug, PartialEq)]
pub struct BodyReader {
    /// The method of the request line.
    pub method: String,
    /// The target of the request line, query string included.
    pub target: String,
    /// The number of bytes to read, which is not zero.
    pub length: usize,
}

/// A request that was read in full.
#[derive(Debug, PartialEq)]
pub struct ParsedRequest {
    /// The method of the request line.
    pub method: String,
    /// The target of the request line, query string included.
    pub target: String,
    /// The body, where one was announced and came in full.
    pub body: Option<String>,
}

/// What to do after a header line.
#[derive(Debug, PartialEq)]
pub enum HeaderStep {
    /// Read the next header line.
    More(HeaderReader),
    /// The headers are over and announce a body: read it.
    Body(BodyReader),
    /// The headers are over and there is no body: answer the request.
    Done(ParsedRequest),
    /// The line is no header: answer with `400 BAD REQUEST`.
    Malformed,
}

/// Takes the request line. `None` stands for a read that failed. Gives the
/// state in which the headers are read; or nothing for a malformed or
/// missing line, to which the answer is `400 BAD REQUEST`.
pub fn read_request_line(line: Option<&str>) -> (reader: Option<HeaderReader>)
    ensures
        match line {
            Some(text) => match request_line_parts(text@) {
                Some((method, target)) => {
                    &&& reader is Some
                    &&& reader->0.method@ == method
                    &&& reader->0.target@ == target
                    &&& reader->0.content_length == 0
                },
                None => reader is None,
            },
            None => reader is None,
        },
{
    match line {
        None => None,
        Some(text) => {
            let chars = chars_of(text);
            let (from, end) = trim_range(&chars, 0, chars.len());
            assert(chars@.subrange(0, chars@.len() as int) =~= chars@);
            let parts = split_ranges(&chars, from, end, ' ');
            if parts.len() != 3 {
                return None;
            }
            let method = text.substring_char(parts[0].0, parts[0].1);
            let target = text.substring_char(parts[1].0, parts[1].1);
            Some(
                HeaderReader {
                    method: String::from_str(method),
                    target: String::from_str(target),
                    content_length: 0,
                },
            )
        },
    }
}

impl HeaderReader {
    /// What the end of the headers leads to: the read of the body where a
    /// length above zero is known, else the request without a body.
    pub open spec fn at_end(self, step: HeaderStep) -> bool {
        if self.content_length > 0 {
            &&& step is Body
            &&& step->Body_0.method == self.method
            &&& step->Body_0.target == self.target
            &&& step->Body_0.length == self.content_length
        } else {
            &&& step is Done
            &&& step->Done_0.method == self.method
            &&& step->Done_0.target == self.target
            &&& step->Done_0.body is None
        }
    }

    /// Takes a header line. `None` stands for a read that failed, which
    /// ends the headers as an empty line does, and so does the end of the
    /// stream, which reads as an empty line. A line with a colon is a
    /// header, and only `Content-Length` is looked at. Any other line is
    /// malformed.
    pub fn line(self, line: Option<&str>) -> (step: HeaderStep)
        ensures
            match line {
                None => self.at_end(step),
                Some(text) => if is_blank(text@) {
                    self.at_end(step)
                } else if !text@.contains(':') {
                    step is Malformed
                } else {
                    &&& step is More
                    &&& step->More_0.method == self.method
                    &&& step->More_0.target == self.target
                    &&& step->More_0.content_length == length_after(
                        self.content_length as nat,
                        text@,
                    )
                },
            },
    {
        match line {
            None => self.end(),
            Some(text) => {
                let chars = chars_of(text);
                let len = chars.len();
                assert(chars@.subrange(0, len as int) =~= chars@);
                let (from, end) = trim_range(&chars, 0, len);
                if from == end {
                    return self.end();
                }
                let colon = find_char(&chars, 0, len, ':');
                proof {
                    lemma_index_of(chars@, ':');
                }
                if colon == len {
                    return HeaderStep::Malformed;
                }
                let (name_from, name_end) = trim_range(&chars, 0, colon);
                let (value_from, value_end) = trim_range(&chars, colon + 1, len);
                proof {
                    assert(chars@.subrange(0, colon as int) =~= before_first(text@, ':'));
                    assert(chars@.subrange(colon + 1, len as int) =~= after_first(text@, ':'));
                }
                let wanted = chars_of("content-length");
                let content_length = if same_text_ignoring_case(
                    &chars,
                    name_from,
                    name_end,
                    &wanted,
                ) {
                    match parse_usize(&chars, value_from, value_end) {
                        Some(length) => length,
                        None => 0,
                    }
                } else {
                    self.content_length
                };
                HeaderStep::More(
                    HeaderReader { method: self.method, target: self.target, content_length },
                )
            },
        }
    }

    /// Ends the headers.
    fn end(self) -> (step: HeaderStep)
        ensures
            self.at_end(step),
    {
        if self.content_length > 0 {
            HeaderStep::Body(
                BodyReader {
                    method: self.method,
                    target: self.target,
                    length: self.content_length,
                },
            )
        } else {
            HeaderStep::Done(ParsedRequest { method: self.method, target: self.target, body: None })
        }
    }
}

impl BodyReader {
    /// Takes what the read of exactly `length` bytes gave: the bytes, or
    /// `None` where fewer came. The bytes become the body as text; a short
    /// read leaves the request without a body, and is no error.
    pub fn body(self, read: Option<Vec<u8>>) -> (request: ParsedRequest)
        ensures
            request.method == self.method,
            request.target == self.target,
            match read {
                Some(bytes) => request.body is Some && request.body->0@ == lossy_text(bytes@),
                None => request.body is None,
            },
            read is Some && valid_utf8(read->0@) ==> request.body->0@ == decode_utf8(read->0@),
    {
        let body = match read {
            Some(bytes) => Some(text_of_bytes(&bytes)),
            None => None,
        };
        self.with_body(body)
    }

    /// The request with the given body.
    pub fn with_body(self, body: Option<String>) -> (request: ParsedRequest)
        ensures
            request.method == self.method,
            request.target == self.target,
            request.body == body,
    {
        ParsedRequest { method: self.method, target: self.target, body }
    }
}

/// Whether `response` answers the request of `method`, `target` and `body`
/// on the table `routes`: the target without its query string is looked up
/// under the method. Where no route answers, the response is the fixed
/// `404 NOT FOUND`. Where a route does, its handler was called on the
/// request, which holds the whole target, the method, the body and the
/// bindings of the route's placeholders, and `response` is what it gave.
pub open spec fn answers<H: Fn(Request) -> Response>(
    routes: Seq<Route<H>>,
    method: Seq<char>,
    target: Seq<char>,
    body: Option<String>,
    response: Response,
) -> bool {
    exists|found: Option<(int, Seq<(Seq<char>, Seq<char>)>)>|
        {
            &&& #[trigger] is_first_match(routes, method, lookup_path(target), found)
            &&& match found {
                Some((index, params)) => exists|request: Request|
                    {
                        &&& request.path@ == target
                        &&& request.method@ == method
                        &&& request.body_content == body
                        &&& request.path_params@ == params
                        &&& #[trigger] call_ensures(routes[index].handler, (request,), response)
                    },
                None => response.is_made_of(Status::NotFound, not_found_content(), false),
            }
        }
}

/// Answers a request that was read in full.
pub fn respond<H: Fn(Request) -> Response>(routes: &[Route<H>], request: ParsedRequest) -> (response:
    Response)
    requires
        forall|i: int| 0 <= i < routes@.len() ==> (#[trigger] routes@[i]).total(),
    ensures
        answers(routes@, request.method@, request.target@, request.body, response),
{
    let target = request.target.as_str();
    let method = request.method.as_str();
    let chars = chars_of(target);
    let mark = find_char(&chars, 0, chars.len(), '?');
    assert(chars@.subrange(0, chars@.len() as int) =~= chars@);
    let path = target.substring_char(0, mark);
    assert(path@ =~= lookup_path(target@));
    let found = match_route(routes, method, path);
    match found {
        Some((index, params)) => {
            let ghost bindings = params@;
            let incoming = Request::new(target, method, request.body, params);
            assert(routes@[index as int].total());
            let response = routes[index].get_response(incoming);
            assert(is_first_match(
                routes@,
                method@,
                lookup_path(target@),
                Some((index as int, bindings)),
            ));
            response
        },
        None => {
            let response = Response::not_found();
            assert(is_first_match(routes@, method@, lookup_path(target@), None));
            response
        },
    }
}

} // verus!
