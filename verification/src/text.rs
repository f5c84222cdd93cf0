//! Decimal and dotted-quad text, built character by character.
use vstd::prelude::*;
use vstd::string::*;

verus! {

/// The character that writes the decimal digit `d` (for `d < 10`).
pub open spec fn digit_char(d: nat) -> char {
    if d == 0 { '0' }
    else if d == 1 { '1' }
    else if d == 2 { '2' }
    else if d == 3 { '3' }
    else if d == 4 { '4' }
    else if d == 5 { '5' }
    else if d == 6 { '6' }
    else if d == 7 { '7' }
    else if d == 8 { '8' }
    else { '9' }
}

/// Decimal text of `n`, most significant digit first, with no leading zero.
pub open spec fn decimal(n: nat) -> Seq<char>
    decreases n,
{
    if n < 10 {
        seq![digit_char(n)]
    } else {
        decimal(n / 10).push(digit_char(n % 10))
    }
}

/// The text of one decimal digit.
fn digit_str(d: u32) -> (s: &'static str)
    requires
        d < 10,
    ensures
        s@ == seq![digit_char(d as nat)],
{
    if d == 0 {
        proof { reveal_strlit("0"); }
        "0"
    } else if d == 1 {
        proof { reveal_strlit("1"); }
        "1"
    } else if d == 2 {
        proof { reveal_strlit("2"); }
        "2"
    } else if d == 3 {
        proof { reveal_strlit("3"); }
        "3"
    } else if d == 4 {
        proof { reveal_strlit("4"); }
        "4"
    } else if d == 5 {
        proof { reveal_strlit("5"); }
        "5"
    } else if d == 6 {
        proof { reveal_strlit("6"); }
        "6"
    } else if d == 7 {
        proof { reveal_strlit("7"); }
        "7"
    } else if d == 8 {
        proof { reveal_strlit("8"); }
        "8"
    } else {
        proof { reveal_strlit("9"); }
        "9"
    }
}

/// Appends the decimal text of `n` to `out`.
pub fn push_decimal(out: &mut String, n: u32)
    ensures
        final(out)@ == old(out)@ + decimal(n as nat),
    decreases n,
{
    if n >= 10 {
        push_decimal(out, n / 10);
    }
    out.append(digit_str(n % 10));
    proof {
        if n >= 10 {
            assert(decimal(n as nat) == decimal((n / 10) as nat).push(digit_char((n % 10) as nat)));
        }
    }
}

/// The decimal text of `n` as a new string.
pub fn decimal_string(n: u32) -> (s: String)
    ensures
        s@ == decimal(n as nat),
{
    let mut s = String::new();
    push_decimal(&mut s, n);
    s
}

/// Whether `p` occurs in `t` starting at position `i`.
pub open spec fn occurs_at(t: Seq<char>, p: Seq<char>, i: int) -> bool {
    &&& 0 <= i
    &&& i + p.len() <= t.len()
    &&& t.subrange(i, i + p.len()) == p
}

/// The first position at or after `k` where `p` occurs in `t`, scanning left to right.
pub open spec fn first_occurrence_from(t: Seq<char>, p: Seq<char>, k: int) -> Option<int>
    decreases t.len() + 1 - k,
{
    if k < 0 || k + p.len() > t.len() {
        None
    } else if occurs_at(t, p, k) {
        Some(k)
    } else {
        first_occurrence_from(t, p, k + 1)
    }
}

/// `t` with its first occurrence of `p` replaced by `w`; `t` itself where `p` does not occur.
pub open spec fn replace_first(t: Seq<char>, p: Seq<char>, w: Seq<char>) -> Seq<char> {
    match first_occurrence_from(t, p, 0) {
        Some(i) => t.subrange(0, i) + w + t.subrange(i + p.len(), t.len() as int),
        None => t,
    }
}

/// Whether `pat` (of `m` characters) occurs in `text` (of `n` characters) at position `i`.
fn matches_at(text: &str, n: usize, pat: &str, m: usize, i: usize) -> (r: bool)
    requires
        n == text@.len(),
        m == pat@.len(),
        i + m <= n,
    ensures
        r == occurs_at(text@, pat@, i as int),
{
    let mut j: usize = 0;
    while j < m
        invariant
            n == text@.len(),
            m == pat@.len(),
            i + m <= n,
            j <= m,
            forall|k: int| 0 <= k < j ==> text@[i + k] == pat@[k],
        decreases m - j,
    {
        if text.get_char(i + j) != pat.get_char(j) {
            assert(text@.subrange(i as int, i + m)[j as int] != pat@[j as int]);
            return false;
        }
        j += 1;
    }
    assert(text@.subrange(i as int, i + m) =~= pat@);
    true
}

/// The first occurrence of `pat` in `text` replaced by `with`, as `str::replacen` with a count
/// of one does it.
pub fn replace_first_str(text: &str, pat: &str, with: &str) -> (r: String)
    ensures
        r@ == replace_first(text@, pat@, with@),
{
    let n = text.unicode_len();
    let m = pat.unicode_len();
    if m > n {
        assert(first_occurrence_from(text@, pat@, 0) is None);
        return String::from_str(text);
    }
    let last = n - m;
    let mut i: usize = 0;
    loop
        invariant
            n == text@.len(),
            m == pat@.len(),
            last == n - m,
            i <= last,
            first_occurrence_from(text@, pat@, 0) == first_occurrence_from(text@, pat@, i as int),
        ensures
            first_occurrence_from(text@, pat@, 0) is None,
        decreases last - i,
    {
        if matches_at(text, n, pat, m, i) {
            let mut r = String::from_str(text.substring_char(0, i));
            r.append(with);
            r.append(text.substring_char(i + m, n));
            return r;
        }
        if i == last {
            assert(first_occurrence_from(text@, pat@, i + 1) is None);
            break;
        }
        i += 1;
    }
    String::from_str(text)
}

/// The number that a text of decimal digits stands for.
pub open spec fn decimal_value(s: Seq<char>) -> int
    decreases s.len(),
{
    if s.len() == 0 {
        0
    } else {
        decimal_value(s.drop_last()) * 10 + (s.last() as int - 48)
    }
}

/// Whether `c` is one of the characters `0` to `9`.
pub open spec fn is_digit(c: char) -> bool {
    '0' <= c <= '9'
}

/// A digit's character stands for the digit.
proof fn lemma_digit_char(d: nat)
    requires
        d < 10,
    ensures
        digit_char(d) as int == d + 48,
        is_digit(digit_char(d)),
{
}

/// The decimal text of `n` is made of digits, has no leading zero, and reads back as `n`.
pub proof fn lemma_decimal_round_trip(n: nat)
    ensures
        decimal_value(decimal(n)) == n,
        decimal(n).len() > 0,
        n >= 10 ==> decimal(n).len() > 1,
        forall|i: int| 0 <= i < decimal(n).len() ==> is_digit(#[trigger] decimal(n)[i]),
        decimal(n).len() > 1 ==> decimal(n)[0] != '0',
    decreases n,
{
    if n < 10 {
        lemma_digit_char(n);
        assert(decimal(n).drop_last() =~= Seq::<char>::empty());
        assert(decimal_value(decimal(n)) == decimal_value(Seq::<char>::empty()) * 10 + (
        digit_char(n) as int - 48));
    } else {
        let q = n / 10;
        let r = n % 10;
        lemma_decimal_round_trip(q);
        lemma_digit_char(r);
        assert(decimal(n).drop_last() =~= decimal(q));
        assert(decimal_value(decimal(n)) == decimal_value(decimal(q)) * 10 + (digit_char(r) as int
            - 48));
        assert(q * 10 + r == n) by (nonlinear_arith)
            requires
                q == n / 10,
                r == n % 10,
        ;
        assert forall|i: int| 0 <= i < decimal(n).len() implies is_digit(#[trigger] decimal(n)[i]) by {
            if i < decimal(q).len() {
                assert(decimal(n)[i] == decimal(q)[i]);
            }
        }
        assert(decimal(n)[0] == decimal(q)[0]);
        if q < 10 {
            lemma_digit_char(q);
        }
    }
}

/// The decimal texts of two different numbers differ.
pub proof fn lemma_decimal_injective(m: nat, n: nat)
    requires
        decimal(m) == decimal(n),
    ensures
        m == n,
{
    lemma_decimal_round_trip(m);
    lemma_decimal_round_trip(n);
}

/// The position that the scan from `k` finds is an occurrence, and no position from `k`
/// up to it is one; where it finds none, no position from `k` on is one.
pub proof fn lemma_first_occurrence_from(t: Seq<char>, p: Seq<char>, k: int)
    requires
        0 <= k,
    ensures
        match first_occurrence_from(t, p, k) {
            Some(i) => k <= i && occurs_at(t, p, i) && forall|j: int|
                k <= j < i ==> !#[trigger] occurs_at(t, p, j),
            None => forall|j: int| k <= j ==> !#[trigger] occurs_at(t, p, j),
        },
    decreases t.len() + 1 - k,
{
    if k + p.len() > t.len() {
    } else if occurs_at(t, p, k) {
    } else {
        lemma_first_occurrence_from(t, p, k + 1);
    }
}

/// `replace_first` replaces the leftmost occurrence of the pattern, and changes nothing
/// where the pattern does not occur.
pub proof fn lemma_replace_first_leftmost(t: Seq<char>, p: Seq<char>, w: Seq<char>)
    ensures
        match first_occurrence_from(t, p, 0) {
            Some(i) => occurs_at(t, p, i) && (forall|j: int| 0 <= j < i ==> !#[trigger] occurs_at(t, p, j))
                && replace_first(t, p, w) == t.subrange(0, i) + w + t.subrange(i + p.len(), t.len() as int),
            None => (forall|j: int| !#[trigger] occurs_at(t, p, j)) && replace_first(t, p, w) == t,
        },
{
    lemma_first_occurrence_from(t, p, 0);
}

} // verus!
