//! Parsing of the textual size and level arguments.

use crate::encoder::LevelsSpec;
use vstd::prelude::*;
use vstd::string::StrSliceExecFns;

verus! {

/// `c` is a decimal digit.
pub open spec fn is_digit(c: char) -> bool {
    '0' <= c <= '9'
}

/// The number that the digit `c` stands for.
pub open spec fn digit_value(c: char) -> int {
    c as int - '0' as int
}

/// Every character of `s` is a decimal digit.
pub open spec fn all_digits(s: Seq<char>) -> bool {
    forall|i: int| 0 <= i < s.len() ==> is_digit(#[trigger] s[i])
}

/// The number that the digits `s` stand for.
pub open spec fn digits_value(s: Seq<char>) -> int
    decreases s.len(),
{
    if s.len() == 0 {
        0
    } else {
        digits_value(s.drop_last()) * 10 + digit_value(s.last())
    }
}

/// `s` without a leading plus sign.
pub open spec fn unsigned_part(s: Seq<char>) -> Seq<char> {
    if s.len() > 0 && s[0] == '+' {
        s.subrange(1, s.len() as int)
    } else {
        s
    }
}

/// The number that `s` spells: an optional plus sign, then one or more
/// decimal digits and nothing else, with a value that fits 32 bits.
pub open spec fn parsed_u32(s: Seq<char>) -> Option<u32> {
    let body = unsigned_part(s);
    if body.len() > 0 && all_digits(body) && digits_value(body) <= u32::MAX {
        Some(digits_value(body) as u32)
    } else {
        None
    }
}

/// The index of the first `x` in `s` at or after `from`; the length of `s`
/// where there is none.
pub open spec fn first_x_from(s: Seq<char>, from: int) -> int
    decreases s.len() - from,
{
    if from < 0 || from >= s.len() {
        s.len() as int
    } else if s[from] == 'x' {
        from
    } else {
        first_x_from(s, from + 1)
    }
}

/// The width and height that `s` spells as `WxH`: two numbers on the two
/// sides of the first `x`.
pub open spec fn parsed_wh(s: Seq<char>) -> Option<(u32, u32)> {
    let at = first_x_from(s, 0);
    if at >= s.len() {
        None
    } else {
        match (parsed_u32(s.subrange(0, at)), parsed_u32(s.subrange(at + 1, s.len() as int))) {
            (Some(w), Some(h)) => Some((w, h)),
            _ => None,
        }
    }
}

/// The level count that `s` spells: the word `auto`, or a number.
pub open spec fn parsed_levels(s: Seq<char>) -> Option<LevelsSpec> {
    if s == "auto"@ {
        Some(LevelsSpec::Auto)
    } else {
        match parsed_u32(s) {
            Some(n) => Some(LevelsSpec::Explicit(n)),
            None => None,
        }
    }
}

/// Digits that follow a number do not make it smaller.
proof fn lemma_digits_grow(s: Seq<char>, n: int)
    requires
        0 <= n <= s.len(),
        all_digits(s),
    ensures
        0 <= digits_value(s.subrange(0, n)) <= digits_value(s),
    decreases s.len() - n,
{
    if n == s.len() {
        assert(s.subrange(0, n) =~= s);
        lemma_digits_nonnegative(s);
    } else {
        let longer = s.subrange(0, n + 1);
        assert(longer.drop_last() =~= s.subrange(0, n));
        assert(is_digit(s[n]));
        assert(longer.last() == s[n]);
        assert forall|i: int| 0 <= i < n implies is_digit(#[trigger] s.subrange(0, n)[i]) by {
            assert(is_digit(s[i]));
        }
        lemma_digits_nonnegative(s.subrange(0, n));
        lemma_digits_grow(s, n + 1);
    }
}

/// Digits stand for a number that is not negative.
proof fn lemma_digits_nonnegative(s: Seq<char>)
    requires
        all_digits(s),
    ensures
        digits_value(s) >= 0,
    decreases s.len(),
{
    if s.len() > 0 {
        assert forall|i: int| 0 <= i < s.len() - 1 implies is_digit(#[trigger] s.drop_last()[i]) by {
            assert(is_digit(s[i]));
        }
        lemma_digits_nonnegative(s.drop_last());
        assert(is_digit(s.last()));
    }
}

/// Parses the characters `from..to` of `s` as a 32-bit number.
pub fn parse_u32_between(s: &str, from: usize, to: usize) -> (r: Option<u32>)
    requires
        from <= to <= s@.len(),
    ensures
        r == parsed_u32(s@.subrange(from as int, to as int)),
{
    let ghost whole = s@.subrange(from as int, to as int);
    let mut i: usize = from;
    if i < to && s.get_char(i) == '+' {
        i += 1;
    }
    let start: usize = i;
    let ghost body = s@.subrange(start as int, to as int);
    assert(body =~= unsigned_part(whole));
    if start == to {
        return None;
    }
    let mut acc: u64 = 0;
    while i < to
        invariant
            start <= i <= to,
            to <= s@.len(),
            from <= to,
            body == s@.subrange(start as int, to as int),
            body == unsigned_part(s@.subrange(from as int, to as int)),
            all_digits(body.subrange(0, i - start)),
            acc == digits_value(body.subrange(0, i - start)),
            acc <= u32::MAX,
        decreases to - i,
    {
        let c: char = s.get_char(i);
        assert(c == body[i - start]);
        if !('0' <= c && c <= '9') {
            assert(!all_digits(body));
            return None;
        }
        let d: u64 = (c as u64) - ('0' as u64);
        let ghost seen = body.subrange(0, i - start + 1);
        proof {
            assert(seen.drop_last() =~= body.subrange(0, i - start));
            assert(seen.last() == c);
            assert forall|k: int| 0 <= k < seen.len() implies is_digit(#[trigger] seen[k]) by {
                if k < i - start {
                    assert(is_digit(body.subrange(0, i - start)[k]));
                }
            }
        }
        acc = acc * 10 + d;
        if acc > u32::MAX as u64 {
            proof {
                if all_digits(body) {
                    lemma_digits_grow(body, i - start + 1);
                }
            }
            return None;
        }
        i += 1;
    }
    assert(body.subrange(0, to - start) =~= body);
    Some(acc as u32)
}

/// Parses `s` as a 32-bit number.
pub fn parse_u32(s: &str) -> (r: Option<u32>)
    ensures
        r == parsed_u32(s@),
{
    let n: usize = s.unicode_len();
    assert(s@.subrange(0, n as int) =~= s@);
    parse_u32_between(s, 0, n)
}

/// Parses `s` as a width and a height of the form `WxH`.
pub fn parse_wh(s: &str) -> (r: Option<(u32, u32)>)
    ensures
        r == parsed_wh(s@),
{
    let n: usize = s.unicode_len();
    let mut at: usize = 0;
    while at < n && s.get_char(at) != 'x'
        invariant
            n == s@.len(),
            at <= n,
            first_x_from(s@, 0) == first_x_from(s@, at as int),
        decreases n - at,
    {
        at += 1;
    }
    if at >= n {
        return None;
    }
    let w = parse_u32_between(s, 0, at);
    let h = parse_u32_between(s, at + 1, n);
    match (w, h) {
        (Some(w), Some(h)) => Some((w, h)),
        _ => None,
    }
}

/// Parses `s` as a level count: the word `auto`, or a number.
pub fn parse_levels(s: &str) -> (r: Option<LevelsSpec>)
    ensures
        r == parsed_levels(s@),
{
    proof {
        reveal_strlit("auto");
    }
    let n: usize = s.unicode_len();
    if n == 4 && s.get_char(0) == 'a' && s.get_char(1) == 'u' && s.get_char(2) == 't' && s.get_char(
        3,
    ) == 'o' {
        assert(s@ =~= "auto"@);
        return Some(LevelsSpec::Auto);
    }
    match parse_u32(s) {
        Some(v) => Some(LevelsSpec::Explicit(v)),
        None => None,
    }
}

} // verus!
