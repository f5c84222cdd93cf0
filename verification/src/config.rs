//! The port a node listens on, read from its configuration.
use vstd::prelude::*;
use crate::text::{decimal, decimal_value, is_digit, lemma_decimal_round_trip};

verus! {

/// The port a node listens on when none is configured.
pub const DEFAULT_WEB_PORT: u16 = 3000;

/// The digits of a number's text: without its leading `+`, where it has one.
pub open spec fn unsigned_digits(s: Seq<char>) -> Seq<char> {
    if s.len() > 0 && s[0] == '+' {
        s.drop_first()
    } else {
        s
    }
}

/// The `u16` that a text stands for, as `str::parse::<u16>` reads it: an optional `+`,
/// then at least one decimal digit and nothing else, for a value of at most 65535.
pub open spec fn parse_u16(s: Seq<char>) -> Option<u16> {
    let digits = unsigned_digits(s);
    if digits.len() > 0 && (forall|i: int| 0 <= i < digits.len() ==> is_digit(#[trigger] digits[i]))
        && decimal_value(digits) <= 65535 {
        Some(decimal_value(digits) as u16)
    } else {
        None
    }
}

/// Over a text of digits, a longer prefix stands for a number at least as large.
proof fn lemma_decimal_value_prefix_grows(s: Seq<char>, j: int, k: int)
    requires
        0 <= j <= k <= s.len(),
        forall|i: int| 0 <= i < s.len() ==> is_digit(#[trigger] s[i]),
    ensures
        decimal_value(s.take(j)) <= decimal_value(s.take(k)),
    decreases k - j,
{
    if j < k {
        lemma_decimal_value_prefix_grows(s, j, k - 1);
        assert(s.take(k).drop_last() =~= s.take(k - 1));
        assert(is_digit(s[k - 1]));
        assert(decimal_value(s.take(k - 1)) >= 0) by {
            lemma_decimal_value_nonneg(s.take(k - 1));
        }
    }
}

/// A text of digits stands for a number that is not negative.
proof fn lemma_decimal_value_nonneg(s: Seq<char>)
    requires
        forall|i: int| 0 <= i < s.len() ==> is_digit(#[trigger] s[i]),
    ensures
        decimal_value(s) >= 0,
    decreases s.len(),
{
    if s.len() > 0 {
        assert(is_digit(s[s.len() - 1]));
        lemma_decimal_value_nonneg(s.drop_last());
    }
}

/// The port that the text `s` names, as `str::parse::<u16>` reads it; `None` where it
/// names none.
pub fn parse_port(s: &str) -> (port: Option<u16>)
    ensures
        port == parse_u16(s@),
{
    let n = s.unicode_len();
    let mut start: usize = 0;
    if n > 0 && s.get_char(0) == '+' {
        start = 1;
    }
    let ghost digits = unsigned_digits(s@);
    assert(digits =~= s@.subrange(start as int, n as int));
    if start == n {
        return None;
    }
    let mut value: u32 = 0;
    let mut i: usize = start;
    while i < n
        invariant
            start <= i <= n,
            n == s@.len(),
            digits == s@.subrange(start as int, n as int),
            digits == unsigned_digits(s@),
            digits.len() > 0,
            value == decimal_value(digits.take(i - start)),
            value <= 65535,
            forall|k: int| 0 <= k < i - start ==> is_digit(#[trigger] digits[k]),
        decreases n - i,
    {
        let c = s.get_char(i);
        assert(c == digits[i - start]);
        if c < '0' || c > '9' {
            assert(!is_digit(digits[i - start]));
            return None;
        }
        let d: u32 = (c as u32) - 48;
        assert(digits.take(i - start + 1).drop_last() =~= digits.take(i - start));
        if value * 10 + d > 65535 {
            proof {
                if forall|k: int| 0 <= k < digits.len() ==> is_digit(#[trigger] digits[k]) {
                    lemma_decimal_value_prefix_grows(digits, i - start + 1, digits.len() as int);
                    assert(digits.take(digits.len() as int) =~= digits);
                }
            }
            return None;
        }
        value = value * 10 + d;
        i += 1;
    }
    assert(digits.take(i - start) =~= digits);
    Some(value as u16)
}

/// The port a node listens on: the configured one where it is a valid port number,
/// otherwise the default.
pub fn web_port(configured: Option<String>) -> (port: u16)
    ensures
        port == match configured {
            Some(text) => match parse_u16(text@) {
                Some(p) => p,
                None => DEFAULT_WEB_PORT,
            },
            None => DEFAULT_WEB_PORT,
        },
{
    match configured {
        Some(text) => match parse_port(text.as_str()) {
            Some(p) => p,
            None => DEFAULT_WEB_PORT,
        },
        None => DEFAULT_WEB_PORT,
    }
}

/// A port written out in decimal reads back as the same port.
pub proof fn lemma_port_round_trip(port: u16)
    ensures
        parse_u16(decimal(port as nat)) == Some(port),
{
    lemma_decimal_round_trip(port as nat);
    let t = decimal(port as nat);
    assert(is_digit(t[0]));
    assert(unsigned_digits(t) == t);
}

} // verus!
