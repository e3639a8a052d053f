//! Natural numbers written in base ten, and read back.

use vstd::prelude::*;
use vstd::string::*;

verus! {

/// The character for a digit below ten.
pub open spec fn digit(d: nat) -> char {
    if d == 0 {
        '0'
    } else if d == 1 {
        '1'
    } else if d == 2 {
        '2'
    } else if d == 3 {
        '3'
    } else if d == 4 {
        '4'
    } else if d == 5 {
        '5'
    } else if d == 6 {
        '6'
    } else if d == 7 {
        '7'
    } else if d == 8 {
        '8'
    } else {
        '9'
    }
}

/// `n` in base ten, most significant digit first, without leading zeros;
/// zero is the single digit `0`.
pub open spec fn decimal(n: nat) -> Seq<char>
    decreases n,
{
    if n < 10 {
        seq![digit(n)]
    } else {
        decimal(n / 10).push(digit(n % 10))
    }
}

/// `n` in base ten, filled with zeros on the left up to `width` characters.
/// A number that needs more keeps all its digits.
pub open spec fn padded(n: nat, width: nat) -> Seq<char>
    decreases width,
{
    if decimal(n).len() >= width {
        decimal(n)
    } else {
        seq!['0'] + padded(n, (width - 1) as nat)
    }
}

/// Whether `c` is one of the ten ASCII digits.
pub open spec fn is_digit(c: char) -> bool {
    '0' <= c <= '9'
}

/// The number that the digit `c` stands for.
pub open spec fn digit_value(c: char) -> nat {
    (c as u32 - '0' as u32) as nat
}

/// Whether `s` holds digits only.
pub open spec fn all_digits(s: Seq<char>) -> bool {
    forall|i: int| 0 <= i < s.len() ==> is_digit(#[trigger] s[i])
}

/// The number that a run of digits stands for; zero for the empty run.
pub open spec fn digits_value(s: Seq<char>) -> nat
    decreases s.len(),
{
    if s.len() == 0 {
        0
    } else {
        digits_value(s.drop_last()) * 10 + digit_value(s.last())
    }
}

/// `s` without one leading `+`.
pub open spec fn unsigned_digits(s: Seq<char>) -> Seq<char> {
    if s.len() > 0 && s[0] == '+' {
        s.drop_first()
    } else {
        s
    }
}

/// The number that `s` stands for: an optional `+`, then one digit or more,
/// leading zeros allowed, the value at most `max`. Anything else is no
/// number.
pub open spec fn parse_unsigned(s: Seq<char>, max: nat) -> Option<nat> {
    let d = unsigned_digits(s);
    if d.len() > 0 && all_digits(d) && digits_value(d) <= max {
        Some(digits_value(d))
    } else {
        None
    }
}

/// `s` without one leading sign.
pub open spec fn signed_digits(s: Seq<char>) -> Seq<char> {
    if s.len() > 0 && (s[0] == '+' || s[0] == '-') {
        s.drop_first()
    } else {
        s
    }
}

/// The number that `s` stands for: an optional sign, then one digit or
/// more, leading zeros allowed, the value from `min` to `max`. Anything
/// else is no number.
pub open spec fn parse_signed(s: Seq<char>, min: int, max: int) -> Option<int> {
    let d = signed_digits(s);
    let value = if s.len() > 0 && s[0] == '-' {
        -(digits_value(d) as int)
    } else {
        digits_value(d) as int
    };
    if d.len() > 0 && all_digits(d) && min <= value <= max {
        Some(value)
    } else {
        None
    }
}

/// `n` in base ten, with a minus sign before it if it is negative.
pub open spec fn signed_decimal(n: int) -> Seq<char> {
    if n < 0 {
        seq!['-'] + decimal((-n) as nat)
    } else {
        decimal(n as nat)
    }
}

/// A longer run of digits stands for no smaller a number than its beginning.
pub proof fn lemma_digits_value_grows(s: Seq<char>, k: int)
    requires
        0 <= k <= s.len(),
    ensures
        digits_value(s.take(k)) <= digits_value(s),
    decreases s.len() - k,
{
    if k == s.len() {
        assert(s.take(k) =~= s);
    } else {
        lemma_digits_value_grows(s.drop_last(), k);
        assert(s.drop_last().take(k) =~= s.take(k));
    }
}

/// The one-character string for a digit.
fn digit_str(d: u64) -> (s: &'static str)
    requires
        d < 10,
    ensures
        s@ == seq![digit(d as nat)],
{
    proof {
        reveal_strlit("0");
        reveal_strlit("1");
        reveal_strlit("2");
        reveal_strlit("3");
        reveal_strlit("4");
        reveal_strlit("5");
        reveal_strlit("6");
        reveal_strlit("7");
        reveal_strlit("8");
        reveal_strlit("9");
    }
    let s = if d == 0 {
        "0"
    } else if d == 1 {
        "1"
    } else if d == 2 {
        "2"
    } else if d == 3 {
        "3"
    } else if d == 4 {
        "4"
    } else if d == 5 {
        "5"
    } else if d == 6 {
        "6"
    } else if d == 7 {
        "7"
    } else if d == 8 {
        "8"
    } else {
        "9"
    };
    assert(s@ =~= seq![digit(d as nat)]);
    s
}

/// Appends `n` in base ten to `out`.
pub fn push_decimal(out: &mut String, n: u64)
    ensures
        final(out)@ == old(out)@ + decimal(n as nat),
    decreases n,
{
    if n >= 10 {
        push_decimal(out, n / 10);
    }
    out.append(digit_str(n % 10));
    proof {
        if n >= 10 {
            assert(old(out)@ + decimal(n as nat / 10) + seq![digit(n as nat % 10)] =~= old(out)@
                + decimal(n as nat));
        } else {
            assert(old(out)@ + seq![digit(n as nat)] =~= old(out)@ + decimal(n as nat));
        }
    }
}

/// Appends `n` in base ten to `out`, filled with zeros up to `width` characters.
pub fn push_padded(out: &mut String, n: u64, width: usize)
    ensures
        final(out)@ == old(out)@ + padded(n as nat, width as nat),
{
    let mut digits = String::new();
    push_decimal(&mut digits, n);
    assert(digits@ =~= decimal(n as nat));
    let len = digits.as_str().unicode_len();
    let mut w: usize = width;
    let ghost mut zeros: Seq<char> = Seq::empty();
    while w > len
        invariant
            len == decimal(n as nat).len(),
            out@ == old(out)@ + zeros,
            zeros + padded(n as nat, w as nat) == padded(n as nat, width as nat),
        decreases w,
    {
        proof {
            reveal_strlit("0");
            assert("0"@ =~= seq!['0']);
            assert(zeros + seq!['0'] + padded(n as nat, (w - 1) as nat) =~= zeros + padded(
                n as nat,
                w as nat,
            ));
            assert(out@ + "0"@ =~= old(out)@ + (zeros + seq!['0']));
            zeros = zeros + seq!['0'];
        }
        out.append("0");
        w -= 1;
    }
    out.append(digits.as_str());
    proof {
        assert(padded(n as nat, w as nat) == decimal(n as nat));
        assert(old(out)@ + zeros + decimal(n as nat) =~= old(out)@ + (zeros + decimal(n as nat)));
    }
}

/// `n` in base ten.
pub fn decimal_string(n: u64) -> (s: String)
    ensures
        s@ == decimal(n as nat),
{
    let mut s = String::new();
    push_decimal(&mut s, n);
    assert(s@ =~= decimal(n as nat));
    s
}

/// Reads `v[from..end]` as a run of digits that stands for a number of at
/// most `max`; nothing for an empty run, for a run that holds anything but
/// digits, and for a greater number.
pub fn parse_digits(v: &Vec<char>, from: usize, end: usize, max: u64) -> (n: Option<u64>)
    requires
        from <= end <= v.len(),
    ensures
        ({
            let d = v@.subrange(from as int, end as int);
            if d.len() > 0 && all_digits(d) && digits_value(d) <= max {
                n == Some(digits_value(d) as u64)
            } else {
                n is None
            }
        }),
{
    let ghost d = v@.subrange(from as int, end as int);
    if from == end {
        return None;
    }
    let mut acc: u64 = 0;
    let mut i: usize = from;
    while i < end
        invariant
            from <= i <= end <= v.len(),
            d == v@.subrange(from as int, end as int),
            all_digits(d.take(i - from)),
            acc == digits_value(d.take(i - from)),
            acc <= max,
        decreases end - i,
    {
        let c = v[i];
        let ghost next = d.take(i - from + 1);
        proof {
            assert(next.drop_last() =~= d.take(i - from));
            assert(next.last() == c);
        }
        if c < '0' || c > '9' {
            assert(!is_digit(d[i - from]));
            return None;
        }
        let value: u64 = (c as u32 - '0' as u32) as u64;
        if value > max || acc > (max - value) / 10 {
            proof {
                assert(digits_value(next) > max);
                if all_digits(d) {
                    lemma_digits_value_grows(d, i - from + 1);
                }
            }
            return None;
        }
        acc = acc * 10 + value;
        proof {
            assert forall|j: int| 0 <= j < next.len() implies is_digit(#[trigger] next[j]) by {
                if j < next.len() - 1 {
                    assert(next[j] == d.take(i - from)[j]);
                }
            }
        }
        i += 1;
    }
    assert(d.take(i - from) =~= d);
    Some(acc)
}

/// Reads `v[from..end]` as a number that fits a `usize`.
pub fn parse_usize(v: &Vec<char>, from: usize, end: usize) -> (n: Option<usize>)
    requires
        from <= end <= v.len(),
    ensures
        match parse_unsigned(v@.subrange(from as int, end as int), usize::MAX as nat) {
            Some(value) => n == Some(value as usize),
            None => n is None,
        },
{
    let ghost s = v@.subrange(from as int, end as int);
    let start: usize = if from < end && v[from] == '+' {
        from + 1
    } else {
        from
    };
    assert(unsigned_digits(s) =~= v@.subrange(start as int, end as int));
    match parse_digits(v, start, end, usize::MAX as u64) {
        Some(value) => Some(value as usize),
        None => None,
    }
}

/// Reads `v[from..end]` as a number that fits an `i32`.
pub fn parse_i32(v: &Vec<char>, from: usize, end: usize) -> (n: Option<i32>)
    requires
        from <= end <= v.len(),
    ensures
        match parse_signed(
            v@.subrange(from as int, end as int),
            i32::MIN as int,
            i32::MAX as int,
        ) {
            Some(value) => n == Some(value as i32),
            None => n is None,
        },
{
    let ghost s = v@.subrange(from as int, end as int);
    let negative = from < end && v[from] == '-';
    let start: usize = if from < end && (v[from] == '+' || v[from] == '-') {
        from + 1
    } else {
        from
    };
    assert(signed_digits(s) =~= v@.subrange(start as int, end as int));
    if negative {
        match parse_digits(v, start, end, 2147483648) {
            Some(value) => Some((0 - (value as i64)) as i32),
            None => None,
        }
    } else {
        match parse_digits(v, start, end, 2147483647) {
            Some(value) => Some(value as i32),
            None => None,
        }
    }
}

/// Appends `n` in base ten to `out`, with a minus sign if it is negative.
pub fn push_signed(out: &mut String, n: i64)
    ensures
        final(out)@ == old(out)@ + signed_decimal(n as int),
{
    if n < 0 {
        proof {
            reveal_strlit("-");
            assert("-"@ =~= seq!['-']);
        }
        out.append("-");
        let magnitude: u64 = if n == i64::MIN {
            9223372036854775808
        } else {
            (0 - n) as u64
        };
        push_decimal(out, magnitude);
        assert(out@ =~= old(out)@ + signed_decimal(n as int));
    } else {
        push_decimal(out, n as u64);
    }
}

} // verus!
