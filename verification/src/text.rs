//! Text as sequences of characters: searching, splitting and trimming.
//!
//! Every function of the request and routing modules that takes a string
//! apart states its result over the spec functions of this module. The
//! executable helpers work on a `Vec<char>` and hand out positions, so that
//! one pass over a string serves any number of lookups.

use vstd::prelude::*;

verus! {

/// The position of the first `c` in `s`, or `s.len()` when `s` holds none.
pub open spec fn index_of(s: Seq<char>, c: char) -> int
    decreases s.len(),
{
    if s.len() == 0 {
        0
    } else if s[0] == c {
        0
    } else {
        1 + index_of(s.drop_first(), c)
    }
}

/// `s` cut at every `sep`. The pieces never hold `sep`, there is one more
/// piece than there are separators, and a separator at either end leaves an
/// empty piece there: the empty text splits into one empty piece.
pub open spec fn split(s: Seq<char>, sep: char) -> Seq<Seq<char>>
    decreases s.len(),
{
    let i = index_of(s, sep);
    if 0 <= i < s.len() {
        seq![s.take(i)] + split(s.skip(i + 1), sep)
    } else {
        seq![s]
    }
}

/// What stands before the first `sep`, or all of `s` when it holds none.
pub open spec fn before_first(s: Seq<char>, sep: char) -> Seq<char> {
    s.take(index_of(s, sep))
}

/// What stands after the first `sep`. Meaningful only when `s` holds one.
pub open spec fn after_first(s: Seq<char>, sep: char) -> Seq<char> {
    s.skip(index_of(s, sep) + 1)
}

/// The Unicode `White_Space` code points, the characters that trimming removes.
pub open spec fn is_space(c: char) -> bool {
    let u = c as u32;
    ||| 0x09 <= u <= 0x0D
    ||| u == 0x20
    ||| u == 0x85
    ||| u == 0xA0
    ||| u == 0x1680
    ||| 0x2000 <= u <= 0x200A
    ||| u == 0x2028
    ||| u == 0x2029
    ||| u == 0x202F
    ||| u == 0x205F
    ||| u == 0x3000
}

/// `s` without its leading white space.
pub open spec fn trim_start(s: Seq<char>) -> Seq<char>
    decreases s.len(),
{
    if s.len() > 0 && is_space(s[0]) {
        trim_start(s.drop_first())
    } else {
        s
    }
}

/// `s` without its trailing white space.
pub open spec fn trim_end(s: Seq<char>) -> Seq<char>
    decreases s.len(),
{
    if s.len() > 0 && is_space(s.last()) {
        trim_end(s.drop_last())
    } else {
        s
    }
}

/// `s` without the white space at either end.
pub open spec fn trim(s: Seq<char>) -> Seq<char> {
    trim_end(trim_start(s))
}

/// The code point of `c` with an ASCII upper-case letter mapped to its
/// lower-case form; that of every other character unchanged.
pub open spec fn ascii_lower(c: char) -> u32 {
    if 'A' <= c <= 'Z' {
        ((c as u32) + 32) as u32
    } else {
        c as u32
    }
}

/// Equality of two texts up to the case of ASCII letters.
pub open spec fn eq_ignore_ascii_case(a: Seq<char>, b: Seq<char>) -> bool {
    a.len() == b.len() && forall|i: int|
        0 <= i < a.len() ==> ascii_lower(#[trigger] a[i]) == ascii_lower(b[i])
}

/// `index_of` stays within the text, points at a `c` unless it ran off the
/// end, and passes no `c` on its way.
pub proof fn lemma_index_of(s: Seq<char>, c: char)
    ensures
        0 <= index_of(s, c) <= s.len(),
        index_of(s, c) < s.len() ==> s[index_of(s, c)] == c,
        forall|j: int| 0 <= j < index_of(s, c) ==> s[j] != c,
        index_of(s, c) == s.len() <==> !s.contains(c),
    decreases s.len(),
{
    if s.len() == 0 {
    } else if s[0] == c {
    } else {
        let rest = s.drop_first();
        lemma_index_of(rest, c);
        assert forall|j: int| 0 <= j < index_of(s, c) implies s[j] != c by {
            if j > 0 {
                assert(s[j] == rest[j - 1]);
            }
        }
        if index_of(s, c) == s.len() {
            assert forall|j: int| 0 <= j < s.len() implies s[j] != c by {}
        } else {
            assert(s[index_of(s, c)] == rest[index_of(rest, c)]);
        }
    }
}

/// A position that holds `c` and has no `c` before it is `index_of`.
pub proof fn lemma_index_of_unique(s: Seq<char>, c: char, i: int)
    requires
        0 <= i <= s.len(),
        i < s.len() ==> s[i] == c,
        forall|j: int| 0 <= j < i ==> s[j] != c,
    ensures
        index_of(s, c) == i,
{
    lemma_index_of(s, c);
    let k = index_of(s, c);
    if k < i {
        assert(s[k] == c);
    } else if k > i {
        assert(s[i] != c);
    }
}

/// Whether `c` is white space.
pub fn char_is_space(c: char) -> (b: bool)
    ensures
        b == is_space(c),
{
    let u: u32 = c as u32;
    (0x09 <= u && u <= 0x0D) || u == 0x20 || u == 0x85 || u == 0xA0 || u == 0x1680 || (0x2000 <= u
        && u <= 0x200A) || u == 0x2028 || u == 0x2029 || u == 0x202F || u == 0x205F || u == 0x3000
}

/// The characters of `s`, in order.
pub fn chars_of(s: &str) -> (v: Vec<char>)
    ensures
        v@ == s@,
{
    let mut v: Vec<char> = Vec::new();
    for c in it: s.chars()
        invariant
            v@ == it.seq().take(it.index() as int),
            it.seq() == s@,
    {
        v.push(c);
    }
    v
}

/// The first position at or after `from`, and before `end`, that holds `c`;
/// `end` when there is none.
pub fn find_char(v: &Vec<char>, from: usize, end: usize, c: char) -> (i: usize)
    requires
        from <= end <= v.len(),
    ensures
        from <= i <= end,
        i - from == index_of(v@.subrange(from as int, end as int), c),
{
    let mut i: usize = from;
    while i < end && v[i] != c
        invariant
            from <= i <= end <= v.len(),
            forall|j: int| from <= j < i ==> v@[j] != c,
        decreases end - i,
    {
        i += 1;
    }
    proof {
        let s = v@.subrange(from as int, end as int);
        lemma_index_of_unique(s, c, i - from);
    }
    i
}

/// The bounds of the pieces of `v[from..end]` cut at every `sep`: one pair
/// of positions for each piece of `split`, in order.
pub fn split_ranges(v: &Vec<char>, from: usize, end: usize, sep: char) -> (ranges: Vec<
    (usize, usize),
>)
    requires
        from <= end <= v.len(),
    ensures
        ranges@.len() == split(v@.subrange(from as int, end as int), sep).len(),
        forall|k: int|
            0 <= k < ranges@.len() ==> {
                &&& from <= (#[trigger] ranges@[k]).0 <= ranges@[k].1 <= end
                &&& v@.subrange(ranges@[k].0 as int, ranges@[k].1 as int) == split(
                    v@.subrange(from as int, end as int),
                    sep,
                )[k]
            },
{
    let mut ranges: Vec<(usize, usize)> = Vec::new();
    let mut start: usize = from;
    let ghost whole = v@.subrange(from as int, end as int);
    let ghost mut done: Seq<Seq<char>> = Seq::empty();
    loop
        invariant_except_break
            ranges@.len() == done.len(),
            split(whole, sep) == done + split(v@.subrange(start as int, end as int), sep),
            forall|k: int|
                0 <= k < ranges@.len() ==> {
                    &&& from <= (#[trigger] ranges@[k]).0 <= ranges@[k].1 <= end
                    &&& v@.subrange(ranges@[k].0 as int, ranges@[k].1 as int) == done[k]
                },
        invariant
            from <= start <= end <= v.len(),
            whole == v@.subrange(from as int, end as int),
        ensures
            ranges@.len() == split(whole, sep).len(),
            forall|k: int|
                0 <= k < ranges@.len() ==> {
                    &&& from <= (#[trigger] ranges@[k]).0 <= ranges@[k].1 <= end
                    &&& v@.subrange(ranges@[k].0 as int, ranges@[k].1 as int) == split(
                        whole,
                        sep,
                    )[k]
                },
        decreases end - start,
    {
        let i = find_char(v, start, end, sep);
        let ghost rest = v@.subrange(start as int, end as int);
        proof {
            lemma_index_of(rest, sep);
            assert(rest.take(i - start) =~= v@.subrange(start as int, i as int));
        }
        ranges.push((start, i));
        if i == end {
            proof {
                assert(split(rest, sep) == seq![rest]);
                done = done.push(rest);
                assert(split(whole, sep) =~= done);
            }
            break ;
        }
        proof {
            assert(rest.skip(i - start + 1) =~= v@.subrange(i + 1, end as int));
            assert(split(rest, sep) == seq![rest.take(i - start)] + split(
                v@.subrange(i + 1, end as int),
                sep,
            ));
            let piece = v@.subrange(start as int, i as int);
            assert(done + split(rest, sep) =~= done.push(piece) + split(
                v@.subrange(i + 1, end as int),
                sep,
            ));
            done = done.push(piece);
        }
        start = i + 1;
    }
    ranges
}

/// Whether `a[a_from..a_end]` and `b[b_from..b_end]` hold the same text.
pub fn same_text(
    a: &Vec<char>,
    a_from: usize,
    a_end: usize,
    b: &Vec<char>,
    b_from: usize,
    b_end: usize,
) -> (same: bool)
    requires
        a_from <= a_end <= a.len(),
        b_from <= b_end <= b.len(),
    ensures
        same == (a@.subrange(a_from as int, a_end as int) == b@.subrange(
            b_from as int,
            b_end as int,
        )),
{
    let ghost x = a@.subrange(a_from as int, a_end as int);
    let ghost y = b@.subrange(b_from as int, b_end as int);
    if a_end - a_from != b_end - b_from {
        assert(x.len() != y.len());
        return false;
    }
    let n: usize = a_end - a_from;
    let mut k: usize = 0;
    while k < n
        invariant
            k <= n,
            n == a_end - a_from,
            n == b_end - b_from,
            a_from <= a_end <= a.len(),
            b_from <= b_end <= b.len(),
            x == a@.subrange(a_from as int, a_end as int),
            y == b@.subrange(b_from as int, b_end as int),
            forall|j: int| 0 <= j < k ==> x[j] == y[j],
        decreases n - k,
    {
        if a[a_from + k] != b[b_from + k] {
            assert(x[k as int] != y[k as int]);
            return false;
        }
        k += 1;
    }
    assert(x =~= y);
    true
}

/// The bounds of `v[from..end]` without the white space at either end.
pub fn trim_range(v: &Vec<char>, from: usize, end: usize) -> (r: (usize, usize))
    requires
        from <= end <= v.len(),
    ensures
        from <= r.0 <= r.1 <= end,
        v@.subrange(r.0 as int, r.1 as int) == trim(v@.subrange(from as int, end as int)),
{
    let mut lo: usize = from;
    while lo < end && char_is_space(v[lo])
        invariant
            from <= lo <= end <= v.len(),
            trim_start(v@.subrange(from as int, end as int)) == trim_start(
                v@.subrange(lo as int, end as int),
            ),
        decreases end - lo,
    {
        assert(v@.subrange(lo as int, end as int).drop_first() =~= v@.subrange(
            lo + 1,
            end as int,
        ));
        lo += 1;
    }
    let mut hi: usize = end;
    while lo < hi && char_is_space(v[hi - 1])
        invariant
            lo <= hi <= end <= v.len(),
            trim_end(v@.subrange(lo as int, end as int)) == trim_end(
                v@.subrange(lo as int, hi as int),
            ),
        decreases hi - lo,
    {
        assert(v@.subrange(lo as int, hi as int).drop_last() =~= v@.subrange(
            lo as int,
            hi - 1,
        ));
        hi -= 1;
    }
    (lo, hi)
}

/// The code point of `c`, folded to lower case when `c` is an ASCII letter.
pub fn lower_char(c: char) -> (l: u32)
    ensures
        l == ascii_lower(c),
{
    if 'A' <= c && c <= 'Z' {
        c as u32 + 32
    } else {
        c as u32
    }
}

/// Whether `a[a_from..a_end]` and all of `b` hold the same text, up to the
/// case of ASCII letters.
pub fn same_text_ignoring_case(a: &Vec<char>, a_from: usize, a_end: usize, b: &Vec<char>) -> (same:
    bool)
    requires
        a_from <= a_end <= a.len(),
    ensures
        same == eq_ignore_ascii_case(a@.subrange(a_from as int, a_end as int), b@),
{
    let ghost x = a@.subrange(a_from as int, a_end as int);
    if a_end - a_from != b.len() {
        return false;
    }
    let n: usize = b.len();
    let mut k: usize = 0;
    while k < n
        invariant
            k <= n,
            n == b@.len(),
            n == a_end - a_from,
            a_from <= a_end <= a.len(),
            x == a@.subrange(a_from as int, a_end as int),
            forall|j: int| 0 <= j < k ==> ascii_lower(#[trigger] x[j]) == ascii_lower(b@[j]),
        decreases n - k,
    {
        if lower_char(a[a_from + k]) != lower_char(b[k]) {
            assert(ascii_lower(x[k as int]) != ascii_lower(b@[k as int]));
            return false;
        }
        k += 1;
    }
    true
}

} // verus!
