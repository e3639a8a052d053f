//! Routes, the path matcher, and the route table's lookup.
//!
//! A pattern and a path are both cut at every `/`. They match when they have
//! the same number of segments and each segment of the pattern either is a
//! placeholder `{name}` or equals the segment of the path at its place. A
//! table is searched from its first route on, and the first route whose
//! method and pattern both fit is the one that answers.

use crate::request::{PathParams, Request};
use crate::response::{
    bad_request_content, not_found_content, server_error_content, unprocessable_entity_content,
    Response,
};
use crate::status::Status;
use crate::text::{chars_of, same_text, split, split_ranges};
use vstd::prelude::*;
use vstd::string::*;

verus! {

/// Whether a segment of a pattern stands for any segment of a path: it
/// begins with `{` and ends with `}`.
pub open spec fn is_placeholder(segment: Seq<char>) -> bool {
    segment.len() > 0 && segment.first() == '{' && segment.last() == '}'
}

/// The name between the braces of a placeholder.
pub open spec fn placeholder_name(segment: Seq<char>) -> Seq<char> {
    segment.subrange(1, segment.len() - 1)
}

/// Whether the segments of a path fit those of a pattern.
pub open spec fn segments_match(pattern: Seq<Seq<char>>, request: Seq<Seq<char>>) -> bool {
    &&& pattern.len() == request.len()
    &&& forall|i: int|
        0 <= i < pattern.len() ==> is_placeholder(#[trigger] pattern[i]) || pattern[i]
            == request[i]
}

/// The bindings that a pattern's placeholders take from a path of as many
/// segments: for each placeholder, in order, its name and the segment of
/// the path at its place.
pub open spec fn captures(pattern: Seq<Seq<char>>, request: Seq<Seq<char>>) -> Seq<
    (Seq<char>, Seq<char>),
>
    decreases pattern.len(),
{
    if pattern.len() == 0 || request.len() != pattern.len() {
        Seq::empty()
    } else {
        let before = captures(pattern.drop_last(), request.drop_last());
        if is_placeholder(pattern.last()) {
            before.push((placeholder_name(pattern.last()), request.last()))
        } else {
            before
        }
    }
}

/// The number of placeholders among the segments of a pattern.
pub open spec fn placeholder_count(pattern: Seq<Seq<char>>) -> nat
    decreases pattern.len(),
{
    if pattern.len() == 0 {
        0
    } else if is_placeholder(pattern.last()) {
        placeholder_count(pattern.drop_last()) + 1
    } else {
        placeholder_count(pattern.drop_last())
    }
}

/// Whether `path` fits `pattern`.
pub open spec fn path_matches(pattern: Seq<char>, path: Seq<char>) -> bool {
    segments_match(split(pattern, '/'), split(path, '/'))
}

/// The bindings that `pattern` takes from `path`.
pub open spec fn path_captures(pattern: Seq<char>, path: Seq<char>) -> Seq<
    (Seq<char>, Seq<char>),
> {
    captures(split(pattern, '/'), split(path, '/'))
}

/// There is one binding for each placeholder.
pub proof fn lemma_captures_len(pattern: Seq<Seq<char>>, request: Seq<Seq<char>>)
    requires
        pattern.len() == request.len(),
    ensures
        captures(pattern, request).len() == placeholder_count(pattern),
    decreases pattern.len(),
{
    if pattern.len() > 0 {
        lemma_captures_len(pattern.drop_last(), request.drop_last());
    }
}

/// A handler behind a pointer, as a table of routes with handlers of many
/// kinds holds it, and as it is shared between threads.
pub type RouteHandler = Box<dyn Fn(Request) -> Response + Send + Sync + 'static>;

/// A handler together with the method and the path pattern it answers.
pub struct Route<H> {
    /// The method: `GET`, `POST`, `PUT` or `DELETE`.
    pub method: String,
    /// The path pattern. A segment `{name}` stands for any segment.
    pub request_pattern: String,
    /// The four responses with fixed content, in the order not found, bad
    /// request, unprocessable entity, server error. They are for the
    /// handler's use; the table's lookup does not read them.
    pub fallback_responses: Vec<Response>,
    /// The function that turns a request into a response.
    pub handler: H,
}

impl<H: Fn(Request) -> Response> Route<H> {
    /// Whether this route answers `method` on `path`.
    pub open spec fn accepts(&self, method: Seq<char>, path: Seq<char>) -> bool {
        self.method@ == method && path_matches(self.request_pattern@, path)
    }

    /// Whether the handler may be called on every request.
    pub open spec fn total(&self) -> bool {
        forall|request: Request| call_requires(self.handler, (request,))
    }

    /// Whether the fallback responses are the four with fixed content.
    pub open spec fn has_fallbacks(&self) -> bool {
        &&& self.fallback_responses@.len() == 4
        &&& self.fallback_responses@[0].is_made_of(Status::NotFound, not_found_content(), false)
        &&& self.fallback_responses@[1].is_made_of(
            Status::BadRequest,
            bad_request_content(),
            false,
        )
        &&& self.fallback_responses@[2].is_made_of(
            Status::UnprocessableEntity,
            unprocessable_entity_content(),
            false,
        )
        &&& self.fallback_responses@[3].is_made_of(
            Status::ServerError,
            server_error_content(),
            false,
        )
    }

    /// Whether this is the route of `method`, `pattern` and `handler`.
    pub open spec fn is_made_of(&self, method: Seq<char>, pattern: Seq<char>, handler: H) -> bool {
        &&& self.method@ == method
        &&& self.request_pattern@ == pattern
        &&& self.handler == handler
        &&& self.has_fallbacks()
    }

    /// A route that answers `GET` on `path`.
    pub fn get(path: &str, handler: H) -> (route: Self)
        ensures
            route.is_made_of("GET"@, path@, handler),
    {
        Route::new("GET", path, handler)
    }

    /// A route that answers `POST` on `path`.
    pub fn post(path: &str, handler: H) -> (route: Self)
        ensures
            route.is_made_of("POST"@, path@, handler),
    {
        Route::new("POST", path, handler)
    }

    /// A route that answers `PUT` on `path`.
    pub fn put(path: &str, handler: H) -> (route: Self)
        ensures
            route.is_made_of("PUT"@, path@, handler),
    {
        Route::new("PUT", path, handler)
    }

    /// A route that answers `DELETE` on `path`.
    pub fn delete(path: &str, handler: H) -> (route: Self)
        ensures
            route.is_made_of("DELETE"@, path@, handler),
    {
        Route::new("DELETE", path, handler)
    }

    /// The bindings of this route's placeholders if `request_path` fits its
    /// pattern, and `None` if it does not. A pattern without placeholders
    /// gives no bindings, which is still a match.
    pub fn matches_path(&self, request_path: &str) -> (found: Option<PathParams>)
        ensures
            found is Some <==> path_matches(self.request_pattern@, request_path@),
            found is Some ==> found->0@ == path_captures(self.request_pattern@, request_path@),
            found is Some ==> found->0@.len() == placeholder_count(
                split(self.request_pattern@, '/'),
            ),
    {
        let pattern_text = self.request_pattern.as_str();
        let pattern = chars_of(pattern_text);
        let request = chars_of(request_path);
        let pattern_segments = split_ranges(&pattern, 0, pattern.len(), '/');
        let request_segments = split_ranges(&request, 0, request.len(), '/');
        let ghost wanted = split(self.request_pattern@, '/');
        let ghost given = split(request_path@, '/');
        proof {
            assert(pattern@.subrange(0, pattern@.len() as int) =~= pattern@);
            assert(request@.subrange(0, request@.len() as int) =~= request@);
        }
        if pattern_segments.len() != request_segments.len() {
            return None;
        }
        let count = pattern_segments.len();
        let mut params = PathParams::new();
        let mut i: usize = 0;
        proof {
            assert(wanted.take(0) =~= Seq::empty());
        }
        while i < count
            invariant
                i <= count,
                count == pattern_segments@.len(),
                count == request_segments@.len(),
                pattern@ == self.request_pattern@,
                pattern_text@ == self.request_pattern@,
                request@ == request_path@,
                wanted == split(self.request_pattern@, '/'),
                given == split(request_path@, '/'),
                wanted.len() == count,
                given.len() == count,
                forall|k: int|
                    0 <= k < count ==> {
                        &&& (#[trigger] pattern_segments@[k]).0 <= pattern_segments@[k].1
                            <= pattern@.len()
                        &&& pattern@.subrange(
                            pattern_segments@[k].0 as int,
                            pattern_segments@[k].1 as int,
                        ) == wanted[k]
                    },
                forall|k: int|
                    0 <= k < count ==> {
                        &&& (#[trigger] request_segments@[k]).0 <= request_segments@[k].1
                            <= request@.len()
                        &&& request@.subrange(
                            request_segments@[k].0 as int,
                            request_segments@[k].1 as int,
                        ) == given[k]
                    },
                forall|k: int|
                    0 <= k < i ==> is_placeholder(#[trigger] wanted[k]) || wanted[k] == given[k],
                params@ == captures(wanted.take(i as int), given.take(i as int)),
            decreases count - i,
        {
            let (p_from, p_end) = pattern_segments[i];
            let (r_from, r_end) = request_segments[i];
            let ghost segment = wanted[i as int];
            proof {
                assert(wanted.take(i + 1).drop_last() =~= wanted.take(i as int));
                assert(given.take(i + 1).drop_last() =~= given.take(i as int));
                assert(wanted.take(i + 1).last() == segment);
                assert(given.take(i + 1).last() == given[i as int]);
                assert(segment == pattern@.subrange(p_from as int, p_end as int));
            }
            if p_from < p_end && pattern[p_from] == '{' && pattern[p_end - 1] == '}' {
                assert(segment.first() == '{' && segment.last() == '}');
                assert(is_placeholder(segment));
                let name = pattern_text.substring_char(p_from + 1, p_end - 1);
                let value = request_path.substring_char(r_from, r_end);
                proof {
                    assert(name@ =~= placeholder_name(segment));
                }
                params.insert(String::from_str(name), String::from_str(value));
            } else {
                proof {
                    if p_from < p_end {
                        assert(segment.first() == pattern@[p_from as int]);
                        assert(segment.last() == pattern@[p_end - 1]);
                    }
                    assert(!is_placeholder(segment));
                }
                if !same_text(&pattern, p_from, p_end, &request, r_from, r_end) {
                    assert(wanted[i as int] != given[i as int]);
                    return None;
                }
            }
            i += 1;
        }
        proof {
            assert(wanted.take(count as int) =~= wanted);
            assert(given.take(count as int) =~= given);
            lemma_captures_len(wanted, given);
        }
        Some(params)
    }

    /// What the handler answers to `request`.
    pub fn get_response(&self, request: Request) -> (response: Response)
        requires
            call_requires(self.handler, (request,)),
        ensures
            call_ensures(self.handler, (request,), response),
    {
        (self.handler)(request)
    }

    /// A route that answers `http_method` on `path` with `handler`.
    pub fn new(http_method: &str, path: &str, handler: H) -> (route: Self)
        ensures
            route.is_made_of(http_method@, path@, handler),
    {
        let mut fallback_responses: Vec<Response> = Vec::new();
        fallback_responses.push(Response::not_found());
        fallback_responses.push(Response::bad_request());
        fallback_responses.push(Response::unprocessable_entity());
        fallback_responses.push(Response::server_error());
        Route {
            request_pattern: String::from_str(path),
            method: String::from_str(http_method),
            handler,
            fallback_responses,
        }
    }
}

/// Whether `found` is what a search of `routes` for `method` and `path`
/// gives: the position of the first route that answers them, with the
/// bindings of its placeholders, or nothing where no route answers them.
pub open spec fn is_first_match<H: Fn(Request) -> Response>(
    routes: Seq<Route<H>>,
    method: Seq<char>,
    path: Seq<char>,
    found: Option<(int, Seq<(Seq<char>, Seq<char>)>)>,
) -> bool {
    match found {
        Some((index, params)) => {
            &&& 0 <= index < routes.len()
            &&& routes[index].accepts(method, path)
            &&& forall|j: int| 0 <= j < index ==> !(#[trigger] routes[j]).accepts(method, path)
            &&& params == path_captures(routes[index].request_pattern@, path)
        },
        None => forall|j: int| 0 <= j < routes.len() ==> !(#[trigger] routes[j]).accepts(
            method,
            path,
        ),
    }
}

/// The result of `match_route` as a value of specifications.
pub open spec fn found_view(found: Option<(usize, PathParams)>) -> Option<
    (int, Seq<(Seq<char>, Seq<char>)>),
> {
    match found {
        Some((index, params)) => Some((index as int, params@)),
        None => None,
    }
}

/// Searches `routes`, in order, for the first route that answers `method`
/// on `path`. Gives its position and the bindings of its placeholders.
/// `path` is the path alone, without a query string.
pub fn match_route<H: Fn(Request) -> Response>(routes: &[Route<H>], method: &str, path: &str) -> (found:
    Option<(usize, PathParams)>)
    ensures
        is_first_match(routes@, method@, path@, found_view(found)),
{
    let wanted = String::from_str(method);
    let mut i: usize = 0;
    while i < routes.len()
        invariant
            i <= routes@.len(),
            wanted@ == method@,
            forall|j: int| 0 <= j < i ==> !(#[trigger] routes@[j]).accepts(method@, path@),
        decreases routes@.len() - i,
    {
        if routes[i].method == wanted {
            match routes[i].matches_path(path) {
                Some(params) => {
                    return Some((i, params));
                },
                None => {},
            }
        }
        i += 1;
    }
    None
}

/// A route is found by its own method on every path that fits its pattern,
/// unless a route before it in the table answers the same method and path:
/// then that one is found, since the first match wins.
pub proof fn law_route_is_found<H: Fn(Request) -> Response>(
    routes: Seq<Route<H>>,
    index: int,
    path: Seq<char>,
    found: Option<(int, Seq<(Seq<char>, Seq<char>)>)>,
)
    requires
        0 <= index < routes.len(),
        path_matches(routes[index].request_pattern@, path),
        forall|j: int| 0 <= j < index ==> !(#[trigger] routes[j]).accepts(routes[index].method@, path),
        is_first_match(routes, routes[index].method@, path, found),
    ensures
        found == Some((index, path_captures(routes[index].request_pattern@, path))),
{
    assert(routes[index].accepts(routes[index].method@, path));
    match found {
        Some((at, params)) => {
            if at < index {
                assert(!routes[at].accepts(routes[index].method@, path));
            } else if index < at {
                assert(!routes[index].accepts(routes[index].method@, path));
            }
        },
        None => {
            assert(!routes[index].accepts(routes[index].method@, path));
        },
    }
}

/// A search never gives a route of another method than the one asked for:
/// whatever the path, a route is not found under a method that is not its
/// own.
pub proof fn law_other_method_finds_other_route<H: Fn(Request) -> Response>(
    routes: Seq<Route<H>>,
    index: int,
    method: Seq<char>,
    path: Seq<char>,
    found: Option<(int, Seq<(Seq<char>, Seq<char>)>)>,
)
    requires
        0 <= index < routes.len(),
        method != routes[index].method@,
        is_first_match(routes, method, path, found),
    ensures
        match found {
            Some((at, _)) => at != index && routes[at].method@ == method,
            None => true,
        },
{
}

/// The search has one result.
pub proof fn law_match_is_unique<H: Fn(Request) -> Response>(
    routes: Seq<Route<H>>,
    method: Seq<char>,
    path: Seq<char>,
    first: Option<(int, Seq<(Seq<char>, Seq<char>)>)>,
    second: Option<(int, Seq<(Seq<char>, Seq<char>)>)>,
)
    requires
        is_first_match(routes, method, path, first),
        is_first_match(routes, method, path, second),
    ensures
        first == second,
{
    match (first, second) {
        (Some((a, _)), Some((b, _))) => {
            if a < b {
                assert(!routes[a].accepts(method, path));
            } else if b < a {
                assert(!routes[b].accepts(method, path));
            }
        },
        (Some((a, _)), None) => {
            assert(!routes[a].accepts(method, path));
        },
        (None, Some((b, _))) => {
            assert(!routes[b].accepts(method, path));
        },
        (None, None) => {},
    }
}

} // verus!
