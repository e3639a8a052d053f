//! Inbound requests: the request line's parts, the body, and the values
//! that the route matcher captured from the path.

use crate::text::{
    after_first, before_first, chars_of, find_char, lemma_index_of, same_text, split, split_ranges,
};
use vstd::prelude::*;
use vstd::string::*;

verus! {

/// The value bound to `name` in a list of bindings: that of the last entry
/// with this name, so that a later binding replaces an earlier one.
pub open spec fn lookup(entries: Seq<(Seq<char>, Seq<char>)>, name: Seq<char>) -> Option<
    Seq<char>,
>
    decreases entries.len(),
{
    if entries.len() == 0 {
        None
    } else if entries.last().0 == name {
        Some(entries.last().1)
    } else {
        lookup(entries.drop_last(), name)
    }
}

/// The query string of a path: what follows its first `?`.
pub open spec fn query_of(path: Seq<char>) -> Seq<char> {
    after_first(path, '?')
}

/// The value of the first pair `key=value` among `pairs` whose key is
/// `name`. A pair without `=` has no key. Key and value part at the first
/// `=` of the pair.
pub open spec fn first_value(pairs: Seq<Seq<char>>, name: Seq<char>) -> Option<Seq<char>>
    decreases pairs.len(),
{
    if pairs.len() == 0 {
        None
    } else if pairs[0].contains('=') && before_first(pairs[0], '=') == name {
        Some(after_first(pairs[0], '='))
    } else {
        first_value(pairs.drop_first(), name)
    }
}

/// The value of the query parameter `name` of `path`: the query string is
/// cut at every `&`, and the first pair with the key `name` gives the value.
/// A path without `?` has no parameters.
pub open spec fn query_value(path: Seq<char>, name: Seq<char>) -> Option<Seq<char>> {
    if path.contains('?') {
        first_value(split(query_of(path), '&'), name)
    } else {
        None
    }
}

/// The request line that a client sends for `method` and `path`.
pub open spec fn request_line(method: Seq<char>, path: Seq<char>) -> Seq<char> {
    method + " "@ + path + " HTTP/1.1"@
}

/// The values captured from a request path, one entry for each placeholder
/// of the pattern that matched, in the order of the placeholders.
#[derive(Clone, Debug, PartialEq)]
pub struct PathParams {
    entries: Vec<(String, String)>,
}

impl View for PathParams {
    type V = Seq<(Seq<char>, Seq<char>)>;

    closed spec fn view(&self) -> Seq<(Seq<char>, Seq<char>)> {
        Seq::new(self.entries@.len(), |i: int| (self.entries@[i].0@, self.entries@[i].1@))
    }
}

impl PathParams {
    /// No captured values.
    pub fn new() -> (params: PathParams)
        ensures
            params@ == Seq::<(Seq<char>, Seq<char>)>::empty(),
    {
        let params = PathParams { entries: Vec::new() };
        assert(params@ =~= Seq::empty());
        params
    }

    /// The bindings `pairs`, each a name and its value, in this order.
    pub fn from_pairs(pairs: Vec<(String, String)>) -> (params: PathParams)
        ensures
            params@.len() == pairs@.len(),
            forall|i: int|
                0 <= i < pairs@.len() ==> params@[i] == (pairs@[i].0@, pairs@[i].1@),
    {
        PathParams { entries: pairs }
    }

    /// Binds `name` to `value`, after the bindings made so far.
    pub fn insert(&mut self, name: String, value: String)
        ensures
            final(self)@ == old(self)@.push((name@, value@)),
    {
        self.entries.push((name, value));
        assert(self@ =~= old(self)@.push((name@, value@)));
    }

    /// The number of bindings.
    pub fn len(&self) -> (n: usize)
        ensures
            n == self@.len(),
    {
        self.entries.len()
    }

    /// Whether there is no binding.
    pub fn is_empty(&self) -> (empty: bool)
        ensures
            empty == (self@.len() == 0),
    {
        self.entries.len() == 0
    }

    /// The value bound to `name`, if any; the latest where there are several.
    pub fn get(&self, name: &str) -> (value: Option<&str>)
        ensures
            match lookup(self@, name@) {
                Some(bound) => value is Some && value->0@ == bound,
                None => value is None,
            },
    {
        let wanted = String::from_str(name);
        let mut i: usize = self.entries.len();
        assert(self@.take(i as int) =~= self@);
        while i > 0
            invariant
                i <= self.entries@.len(),
                wanted@ == name@,
                lookup(self@, name@) == lookup(self@.take(i as int), name@),
            decreases i,
        {
            let ghost prefix = self@.take(i as int);
            assert(prefix.last() == self@[i - 1]);
            assert(prefix.drop_last() =~= self@.take(i - 1));
            if self.entries[i - 1].0 == wanted {
                return Some(self.entries[i - 1].1.as_str());
            }
            i -= 1;
        }
        assert(self@.take(0) =~= Seq::empty());
        None
    }
}

/// An inbound request.
#[derive(Debug, PartialEq)]
pub struct Request {
    /// The whole request target, query string included: `/user/42?x=1`.
    pub path: String,
    /// The method as the client wrote it: `GET`, `POST`, `PUT`, `DELETE`.
    pub method: String,
    /// The body, where one was read.
    pub body_content: Option<String>,
    /// The values that the route matcher captured from the path.
    pub path_params: PathParams,
}

impl Request {
    /// A request with the given parts. The method is taken as it is: a
    /// method that no route names simply matches no route.
    pub fn new(
        path: &str,
        method: &str,
        body_content: Option<String>,
        path_params: PathParams,
    ) -> (request: Request)
        ensures
            request.path@ == path@,
            request.method@ == method@,
            request.body_content == body_content,
            request.path_params == path_params,
    {
        Request {
            path: String::from_str(path),
            method: String::from_str(method),
            body_content,
            path_params,
        }
    }

    /// The request line of a `GET` for `path`.
    pub fn get(path: &str) -> (line: String)
        ensures
            line@ == request_line("GET"@, path@),
    {
        Self::line_for("GET", path)
    }

    /// The request line of a `POST` for `path`.
    pub fn post(path: &str) -> (line: String)
        ensures
            line@ == request_line("POST"@, path@),
    {
        Self::line_for("POST", path)
    }

    /// The request line of a `PUT` for `path`.
    pub fn put(path: &str) -> (line: String)
        ensures
            line@ == request_line("PUT"@, path@),
    {
        Self::line_for("PUT", path)
    }

    /// The request line of a `DELETE` for `path`.
    pub fn delete(path: &str) -> (line: String)
        ensures
            line@ == request_line("DELETE"@, path@),
    {
        Self::line_for("DELETE", path)
    }

    fn line_for(method: &str, path: &str) -> (line: String)
        ensures
            line@ == request_line(method@, path@),
    {
        let mut line = String::from_str(method);
        line.append(" ");
        line.append(path);
        line.append(" HTTP/1.1");
        line
    }

    /// The value of the query parameter `name`, if the path has one. The
    /// query string is read from left to right and the first pair whose key
    /// is `name` decides.
    pub fn query_param(&self, name: &str) -> (value: Option<&str>)
        ensures
            match query_value(self.path@, name@) {
                Some(found) => value is Some && value->0@ == found,
                None => value is None,
            },
            !self.path@.contains('?') ==> value is None,
    {
        let path = self.path.as_str();
        let chars = chars_of(path);
        let wanted = chars_of(name);
        let len = chars.len();
        let mark = find_char(&chars, 0, len, '?');
        proof {
            assert(chars@.subrange(0, len as int) =~= chars@);
            lemma_index_of(chars@, '?');
        }
        if mark == len {
            return None;
        }
        let ranges = split_ranges(&chars, mark + 1, len, '&');
        let ghost query = chars@.subrange(mark + 1, len as int);
        let ghost pairs = split(query, '&');
        assert(query =~= query_of(self.path@));
        assert(pairs.skip(0) =~= pairs);
        let mut k: usize = 0;
        while k < ranges.len()
            invariant
                k <= ranges@.len(),
                self.path@.contains('?'),
                pairs == split(query_of(self.path@), '&'),
                len == chars@.len(),
                chars@ == self.path@,
                path@ == self.path@,
                wanted@ == name@,
                mark + 1 <= len,
                ranges@.len() == pairs.len(),
                forall|j: int|
                    0 <= j < ranges@.len() ==> {
                        &&& mark + 1 <= (#[trigger] ranges@[j]).0 <= ranges@[j].1 <= len
                        &&& chars@.subrange(ranges@[j].0 as int, ranges@[j].1 as int) == pairs[j]
                    },
                first_value(pairs, name@) == first_value(pairs.skip(k as int), name@),
            decreases ranges@.len() - k,
        {
            let (lo, hi) = ranges[k];
            let ghost pair = pairs[k as int];
            let eq = find_char(&chars, lo, hi, '=');
            proof {
                lemma_index_of(pair, '=');
                assert(pairs.skip(k as int)[0] == pair);
                assert(pairs.skip(k as int).drop_first() =~= pairs.skip(k + 1));
                assert(pair.take(eq - lo) =~= chars@.subrange(lo as int, eq as int));
            }
            if eq < hi && same_text(&chars, lo, eq, &wanted, 0, wanted.len()) {
                proof {
                    assert(wanted@.subrange(0, wanted@.len() as int) =~= wanted@);
                    assert(pair.skip(eq - lo + 1) =~= chars@.subrange(eq + 1, hi as int));
                }
                return Some(path.substring_char(eq + 1, hi));
            }
            proof {
                assert(wanted@.subrange(0, wanted@.len() as int) =~= wanted@);
            }
            k += 1;
        }
        assert(pairs.skip(k as int) =~= Seq::empty());
        None
    }

    /// The body as a string of its own, or an error where the request has
    /// no body.
    pub fn body_as_string(&self) -> (body: Result<String, String>)
        ensures
            match self.body_content {
                Some(content) => body is Ok && body->Ok_0@ == content@,
                None => body is Err && body->Err_0@ == "Request body not available"@,
            },
    {
        match &self.body_content {
            Some(content) => Ok(content.clone()),
            None => Err(String::from_str("Request body not available")),
        }
    }
}

/// A path without `?` has no query parameters, whatever the name asked for.
pub proof fn law_no_query_no_parameters(path: Seq<char>, name: Seq<char>)
    requires
        !path.contains('?'),
    ensures
        query_value(path, name) is None,
{
}

/// The first pair with the key asked for decides, whatever follows it: of
/// two pairs with the same key, the second is never read.
pub proof fn law_first_key_match_wins(first: Seq<char>, rest: Seq<Seq<char>>, name: Seq<char>)
    requires
        first.contains('='),
        before_first(first, '=') == name,
    ensures
        first_value(seq![first] + rest, name) == Some(after_first(first, '=')),
{
    assert((seq![first] + rest)[0] == first);
}

/// A pair whose key is another one does not count: the lookup goes on
/// behind it.
pub proof fn law_other_keys_are_passed(first: Seq<char>, rest: Seq<Seq<char>>, name: Seq<char>)
    requires
        !first.contains('=') || before_first(first, '=') != name,
    ensures
        first_value(seq![first] + rest, name) == first_value(rest, name),
{
    assert((seq![first] + rest)[0] == first);
    assert((seq![first] + rest).drop_first() =~= rest);
}

} // verus!
