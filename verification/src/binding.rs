//! Where the arguments of an endpoint function come from.
//!
//! An endpoint is a function from named text arguments to the content of a
//! response, registered under a method and a path pattern. Each argument is
//! fed from the request by its name: one that is named like a placeholder
//! of the pattern takes the value captured there; of the others, the first
//! takes the body where the method is `POST` or `PUT`; all that remain take
//! the query parameter of their name.

use crate::request::{lookup, query_value, Request};
use crate::route::{is_placeholder, placeholder_name};
use crate::text::{chars_of, split, split_ranges};
use vstd::prelude::*;
use vstd::string::*;

verus! {

/// The lower-case form that `str::to_lowercase` gives of a text.
pub uninterp spec fn lowercase(text: Seq<char>) -> Seq<char>;

/// `str::to_lowercase` maps each character to its Unicode lower-case form,
/// which the name `lowercase` stands for.
#[verifier::external_body]
fn to_lowercase(text: &str) -> (lowered: String)
    ensures
        lowered@ == lowercase(text@),
{
    text.to_lowercase()
}

/// The part of a request that feeds an argument.
#[derive(Clone, Copy, Debug, PartialEq, Eq, Structural)]
pub enum ArgSource {
    /// The value captured by the placeholder of the argument's name.
    PathParam,
    /// The body of the request.
    Body,
    /// The query parameter of the argument's name.
    Query,
}

/// The names of the placeholders among the segments of a pattern, in order.
pub open spec fn names_of(segments: Seq<Seq<char>>) -> Seq<Seq<char>>
    decreases segments.len(),
{
    if segments.len() == 0 {
        Seq::empty()
    } else if is_placeholder(segments.last()) {
        names_of(segments.drop_last()).push(placeholder_name(segments.last()))
    } else {
        names_of(segments.drop_last())
    }
}

/// The names of the placeholders of a pattern, in order.
pub open spec fn placeholder_names(pattern: Seq<char>) -> Seq<Seq<char>> {
    names_of(split(pattern, '/'))
}

/// Whether requests of this method bring a body for an argument.
pub open spec fn takes_body(method: Seq<char>) -> bool {
    method == "POST"@ || method == "PUT"@
}

/// Whether the argument at `index` is the first that no placeholder feeds.
pub open spec fn is_first_free(
    path_names: Seq<Seq<char>>,
    names: Seq<Seq<char>>,
    index: int,
) -> bool {
    &&& !path_names.contains(names[index])
    &&& forall|j: int| 0 <= j < index ==> path_names.contains(#[trigger] names[j])
}

/// The source of the argument at `index` among the arguments `names` of an
/// endpoint registered under `method` and `pattern`.
pub open spec fn source_of(
    method: Seq<char>,
    pattern: Seq<char>,
    names: Seq<Seq<char>>,
    index: int,
) -> ArgSource {
    let path_names = placeholder_names(pattern);
    if path_names.contains(names[index]) {
        ArgSource::PathParam
    } else if takes_body(method) && is_first_free(path_names, names, index) {
        ArgSource::Body
    } else {
        ArgSource::Query
    }
}

/// The value that `source` gives to the argument `name` from a request of
/// the given path, body and captured values; nothing where the request
/// lacks it.
pub open spec fn value_from(
    path: Seq<char>,
    body: Option<String>,
    params: Seq<(Seq<char>, Seq<char>)>,
    source: ArgSource,
    name: Seq<char>,
) -> Option<Seq<char>> {
    match source {
        ArgSource::PathParam => lookup(params, name),
        ArgSource::Body => match body {
            Some(content) => Some(content@),
            None => None,
        },
        ArgSource::Query => query_value(path, name),
    }
}

/// The name of the function that keeps an endpoint's own body, given the
/// method in lower case and the endpoint's name.
pub open spec fn internal_name(lowered_method: Seq<char>, endpoint: Seq<char>) -> Seq<char> {
    "__http_"@ + lowered_method + "_handler_orig_"@ + endpoint
}

/// The views of a list of names.
pub open spec fn views(names: Seq<&str>) -> Seq<Seq<char>> {
    Seq::new(names.len(), |i: int| names[i]@)
}

/// The names of the placeholders of `pattern`, in order.
pub fn extract_path_parameters(pattern: &str) -> (names: Vec<String>)
    ensures
        names@.len() == placeholder_names(pattern@).len(),
        forall|i: int| 0 <= i < names@.len() ==> (#[trigger] names@[i])@ == placeholder_names(
            pattern@,
        )[i],
{
    let chars = chars_of(pattern);
    let segments = split_ranges(&chars, 0, chars.len(), '/');
    let ghost pieces = split(pattern@, '/');
    assert(chars@.subrange(0, chars@.len() as int) =~= chars@);
    let mut names: Vec<String> = Vec::new();
    let mut i: usize = 0;
    assert(pieces.take(0) =~= Seq::empty());
    while i < segments.len()
        invariant
            i <= segments@.len(),
            chars@ == pattern@,
            pieces == split(pattern@, '/'),
            segments@.len() == pieces.len(),
            forall|k: int|
                0 <= k < segments@.len() ==> {
                    &&& (#[trigger] segments@[k]).0 <= segments@[k].1 <= chars@.len()
                    &&& chars@.subrange(segments@[k].0 as int, segments@[k].1 as int)
                        == pieces[k]
                },
            names@.len() == names_of(pieces.take(i as int)).len(),
            forall|k: int|
                0 <= k < names@.len() ==> (#[trigger] names@[k])@ == names_of(
                    pieces.take(i as int),
                )[k],
        decreases segments@.len() - i,
    {
        let (from, end) = segments[i];
        let ghost segment = pieces[i as int];
        proof {
            assert(pieces.take(i + 1).drop_last() =~= pieces.take(i as int));
            assert(pieces.take(i + 1).last() == segment);
            assert(segment == chars@.subrange(from as int, end as int));
        }
        if from < end && chars[from] == '{' && chars[end - 1] == '}' {
            assert(segment.first() == '{' && segment.last() == '}');
            let name = pattern.substring_char(from + 1, end - 1);
            assert(name@ =~= placeholder_name(segment));
            names.push(String::from_str(name));
        } else {
            proof {
                if from < end {
                    assert(segment.first() == chars@[from as int]);
                    assert(segment.last() == chars@[end - 1]);
                }
                assert(!is_placeholder(segment));
            }
        }
        i += 1;
    }
    assert(pieces.take(i as int) =~= pieces);
    names
}

/// Whether `names` holds `name`.
fn holds_name(names: &Vec<String>, name: &str) -> (found: bool)
    ensures
        found == exists|k: int| 0 <= k < names@.len() && (#[trigger] names@[k])@ == name@,
{
    let wanted = String::from_str(name);
    let mut k: usize = 0;
    while k < names.len()
        invariant
            k <= names@.len(),
            wanted@ == name@,
            forall|j: int| 0 <= j < k ==> (#[trigger] names@[j])@ != name@,
        decreases names@.len() - k,
    {
        if names[k] == wanted {
            return true;
        }
        k += 1;
    }
    false
}

/// The source of each argument of an endpoint registered under `method`
/// and `pattern`, for its arguments `names` in order.
pub fn argument_sources(method: &str, pattern: &str, names: &[&str]) -> (sources: Vec<ArgSource>)
    ensures
        sources@.len() == names@.len(),
        forall|i: int|
            0 <= i < names@.len() ==> #[trigger] sources@[i] == source_of(
                method@,
                pattern@,
                views(names@),
                i,
            ),
{
    let path_names = extract_path_parameters(pattern);
    let ghost wanted = placeholder_names(pattern@);
    let ghost given = views(names@);
    let with_body = method_takes_body(method);
    let mut had_body_arg = false;
    let mut sources: Vec<ArgSource> = Vec::new();
    let mut i: usize = 0;
    while i < names.len()
        invariant
            i <= names@.len(),
            wanted == placeholder_names(pattern@),
            given == views(names@),
            with_body == takes_body(method@),
            path_names@.len() == wanted.len(),
            forall|k: int| 0 <= k < path_names@.len() ==> (#[trigger] path_names@[k])@ == wanted[k],
            sources@.len() == i,
            had_body_arg == exists|j: int| 0 <= j < i && !wanted.contains(#[trigger] given[j]),
            forall|k: int|
                0 <= k < i ==> #[trigger] sources@[k] == source_of(method@, pattern@, given, k),
        decreases names@.len() - i,
    {
        let name = names[i];
        assert(given[i as int] == name@);
        let in_path = holds_name(&path_names, name);
        proof {
            if in_path {
                let k = choose|k: int| 0 <= k < path_names@.len() && (#[trigger] path_names@[k])@ == name@;
                assert(wanted[k] == name@);
            } else {
                if wanted.contains(name@) {
                    let k = choose|k: int| 0 <= k < wanted.len() && wanted[k] == name@;
                    assert(path_names@[k]@ == name@);
                }
            }
            assert(in_path == wanted.contains(given[i as int]));
        }
        let source = if in_path {
            ArgSource::PathParam
        } else if with_body && !had_body_arg {
            ArgSource::Body
        } else {
            ArgSource::Query
        };
        proof {
            if !in_path {
                if had_body_arg {
                    let j = choose|j: int| 0 <= j < i && !wanted.contains(#[trigger] given[j]);
                    assert(!is_first_free(wanted, given, i as int));
                } else {
                    assert(is_first_free(wanted, given, i as int));
                }
            }
        }
        if !in_path {
            had_body_arg = true;
        }
        sources.push(source);
        i += 1;
    }
    sources
}

/// Whether `method` is `POST` or `PUT`.
fn method_takes_body(method: &str) -> (with_body: bool)
    ensures
        with_body == takes_body(method@),
{
    let text = String::from_str(method);
    text == String::from_str("POST") || text == String::from_str("PUT")
}

/// The value that `source` gives to the argument `name` from `request`.
pub fn argument_value(request: &Request, source: ArgSource, name: &str) -> (value: Option<String>)
    ensures
        match value_from(
            request.path@,
            request.body_content,
            request.path_params@,
            source,
            name@,
        ) {
            Some(text) => value is Some && value->0@ == text,
            None => value is None,
        },
{
    match source {
        ArgSource::PathParam => match request.path_params.get(name) {
            Some(text) => Some(String::from_str(text)),
            None => None,
        },
        ArgSource::Body => match &request.body_content {
            Some(content) => Some(content.clone()),
            None => None,
        },
        ArgSource::Query => match request.query_param(name) {
            Some(text) => Some(String::from_str(text)),
            None => None,
        },
    }
}

/// The values of the arguments `names` of an endpoint registered under
/// `method` and `pattern`, taken from `request`, in the order of the
/// arguments; nothing where the request lacks one of them.
pub fn bind_arguments(request: &Request, method: &str, pattern: &str, names: &[&str]) -> (values:
    Option<Vec<String>>)
    ensures
        values is Some <==> forall|i: int|
            0 <= i < names@.len() ==> (#[trigger] value_from(
                request.path@,
                request.body_content,
                request.path_params@,
                source_of(method@, pattern@, views(names@), i),
                names@[i]@,
            )) is Some,
        values is Some ==> {
            &&& values->0@.len() == names@.len()
            &&& forall|i: int|
                0 <= i < names@.len() ==> Some((#[trigger] values->0@[i])@) == value_from(
                    request.path@,
                    request.body_content,
                    request.path_params@,
                    source_of(method@, pattern@, views(names@), i),
                    names@[i]@,
                )
        },
{
    let sources = argument_sources(method, pattern, names);
    let mut values: Vec<String> = Vec::new();
    let mut i: usize = 0;
    while i < names.len()
        invariant
            i <= names@.len(),
            sources@.len() == names@.len(),
            forall|k: int|
                0 <= k < names@.len() ==> #[trigger] sources@[k] == source_of(
                    method@,
                    pattern@,
                    views(names@),
                    k,
                ),
            values@.len() == i,
            forall|k: int|
                0 <= k < i ==> Some((#[trigger] values@[k])@) == value_from(
                    request.path@,
                    request.body_content,
                    request.path_params@,
                    source_of(method@, pattern@, views(names@), k),
                    names@[k]@,
                ),
        decreases names@.len() - i,
    {
        match argument_value(request, sources[i], names[i]) {
            Some(value) => {
                values.push(value);
            },
            None => {
                assert(value_from(
                    request.path@,
                    request.body_content,
                    request.path_params@,
                    source_of(method@, pattern@, views(names@), i as int),
                    names@[i as int]@,
                ) is None);
                return None;
            },
        }
        i += 1;
    }
    proof {
        assert forall|k: int| 0 <= k < names@.len() implies (#[trigger] value_from(
            request.path@,
            request.body_content,
            request.path_params@,
            source_of(method@, pattern@, views(names@), k),
            names@[k]@,
        )) is Some by {
            assert(Some(values@[k]@) == value_from(
                request.path@,
                request.body_content,
                request.path_params@,
                source_of(method@, pattern@, views(names@), k),
                names@[k]@,
            ));
        }
    }
    Some(values)
}

/// The name of the function that keeps an endpoint's own body:
/// `__http_`, the method in lower case, `_handler_orig_`, and the
/// endpoint's name.
pub fn generate_unique_internal_fn_name(method: &str, endpoint: &str) -> (name: String)
    ensures
        name@ == internal_name(lowercase(method@), endpoint@),
{
    let lowered = to_lowercase(method);
    internal_fn_name(lowered.as_str(), endpoint)
}

/// The name of the function that keeps an endpoint's own body, given the
/// method already in lower case.
pub fn internal_fn_name(lowered_method: &str, endpoint: &str) -> (name: String)
    ensures
        name@ == internal_name(lowered_method@, endpoint@),
{
    let mut name = String::from_str("__http_");
    name.append(lowered_method);
    name.append("_handler_orig_");
    name.append(endpoint);
    name
}

} // verus!
