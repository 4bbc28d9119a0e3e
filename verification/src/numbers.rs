//! Numbers in decimal notation.
use crate::text::{chars, text_of};
use vstd::prelude::*;

verus! {

/// The decimal digit for `d`.
pub open spec fn digit(d: nat) -> char {
    (48 + d) as u8 as char
}

/// A natural number in decimal notation, without leading zeros.
pub open spec fn decimal(n: nat) -> Seq<char>
    decreases n,
{
    if n < 10 {
        seq![digit(n)]
    } else {
        decimal(n / 10).push(digit(n % 10))
    }
}

/// An integer in decimal notation, with `-` before a negative one.
pub open spec fn signed_decimal(n: int) -> Seq<char> {
    if n < 0 {
        seq!['-'] + decimal((-n) as nat)
    } else {
        decimal(n as nat)
    }
}

/// A decimal digit.
pub open spec fn is_digit(c: char) -> bool {
    '0' <= c && c <= '9'
}

/// Nothing but decimal digits stands in `s`.
pub open spec fn all_digits(s: Seq<char>) -> bool {
    forall|i: int| 0 <= i < s.len() ==> is_digit(#[trigger] s[i])
}

/// The number that a row of decimal digits stands for.
pub open spec fn digits_value(s: Seq<char>) -> nat
    decreases s.len(),
{
    if s.len() == 0 {
        0
    } else {
        (10 * digits_value(s.drop_last()) + (s.last() as u32 - 48)) as nat
    }
}

/// The number up to `max` that a text of digits stands for, if it is such a text.
pub open spec fn parse_digits(s: Seq<char>, max: nat) -> Option<nat> {
    if s.len() > 0 && all_digits(s) && digits_value(s) <= max {
        Some(digits_value(s))
    } else {
        None
    }
}

/// The number up to `max` that a text stands for: digits, with or without `+` before them.
pub open spec fn parse_unsigned(s: Seq<char>, max: nat) -> Option<nat> {
    if s.len() > 0 && s[0] == '+' {
        parse_digits(s.skip(1), max)
    } else {
        parse_digits(s, max)
    }
}

/// The 32-bit integer that a text stands for: digits, with or without a sign before them.
pub open spec fn parse_signed(s: Seq<char>) -> Option<int> {
    if s.len() > 0 && s[0] == '-' {
        match parse_digits(s.skip(1), 0x8000_0000) {
            Some(n) => Some(-(n as int)),
            None => None,
        }
    } else {
        match parse_unsigned(s, 0x7fff_ffff) {
            Some(n) => Some(n as int),
            None => None,
        }
    }
}

proof fn lemma_digits_prefix(s: Seq<char>, i: int)
    requires
        0 <= i <= s.len(),
        all_digits(s),
    ensures
        digits_value(s.take(i)) <= digits_value(s),
    decreases s.len() - i,
{
    if i < s.len() {
        lemma_digits_prefix(s, i + 1);
        assert(s.take(i + 1).drop_last() =~= s.take(i));
        assert(is_digit(s[i]));
        assert(s.take(i + 1).last() == s[i]);
    } else {
        assert(s.take(i) =~= s);
    }
}

fn digits_from(cs: &[char], start: usize, max: u64) -> (r: Option<u64>)
    requires
        start <= cs@.len(),
    ensures
        match r {
            Some(n) => parse_digits(cs@.skip(start as int), max as nat) == Some(n as nat),
            None => parse_digits(cs@.skip(start as int), max as nat) is None,
        },
{
    let ghost body = cs@.skip(start as int);
    if start == cs.len() {
        return None;
    }
    let mut acc: u64 = 0;
    let mut i: usize = start;
    assert(body.take(0) =~= seq![]);
    while i < cs.len()
        invariant
            start <= i <= cs@.len(),
            start < cs@.len(),
            body == cs@.skip(start as int),
            acc <= max,
            acc == digits_value(body.take(i - start)),
            forall|j: int| start <= j < i ==> is_digit(#[trigger] cs@[j]),
        decreases cs@.len() - i,
    {
        let c = cs[i];
        let ghost k = i - start;
        assert(body[k] == c);
        if !('0' <= c && c <= '9') {
            assert(!is_digit(body[k]));
            return None;
        }
        let d: u64 = (c as u32 - 48) as u64;
        assert(body.take(k + 1).drop_last() =~= body.take(k));
        assert(body.take(k + 1).last() == c);
        let next: u128 = (acc as u128) * 10 + (d as u128);
        assert(next == digits_value(body.take(k + 1)));
        if next > max as u128 {
            proof {
                if all_digits(body) {
                    lemma_digits_prefix(body, k + 1);
                }
            }
            return None;
        }
        acc = next as u64;
        i = i + 1;
    }
    assert(body.take(i - start) =~= body);
    assert forall|j: int| 0 <= j < body.len() implies is_digit(#[trigger] body[j]) by {
        assert(is_digit(cs@[j + start]));
    }
    Some(acc)
}

/// Reads an unsigned number up to `max`.
pub fn read_unsigned(s: &str, max: u64) -> (r: Option<u64>)
    ensures
        match r {
            Some(n) => parse_unsigned(s@, max as nat) == Some(n as nat),
            None => parse_unsigned(s@, max as nat) is None,
        },
{
    let cs = chars(s);
    assert(s@.skip(0) =~= s@);
    if cs.len() > 0 && cs[0] == '+' {
        digits_from(&cs, 1, max)
    } else {
        digits_from(&cs, 0, max)
    }
}

/// Reads a 32-bit integer.
pub fn read_signed(s: &str) -> (r: Option<i32>)
    ensures
        match r {
            Some(n) => parse_signed(s@) == Some(n as int),
            None => parse_signed(s@) is None,
        },
{
    let cs = chars(s);
    if cs.len() > 0 && cs[0] == '-' {
        match digits_from(&cs, 1, 0x8000_0000) {
            Some(n) => Some((0 - (n as i64)) as i32),
            None => None,
        }
    } else {
        match read_unsigned(s, 0x7fff_ffff) {
            Some(n) => Some(n as i32),
            None => None,
        }
    }
}

/// Reads a 32-bit integer, and takes `default` for a text that is none.
pub fn read_signed_or(s: &str, default: i32) -> (r: i32)
    ensures
        r == signed_or(s@, default as int),
{
    match read_signed(s) {
        Some(n) => n,
        None => default,
    }
}

/// The 32-bit integer that a text stands for, or `default`.
pub open spec fn signed_or(s: Seq<char>, default: int) -> int {
    match parse_signed(s) {
        Some(n) => n,
        None => default,
    }
}

fn decimal_chars(n: u128) -> (r: Vec<char>)
    ensures
        r@ == decimal(n as nat),
    decreases n,
{
    let d: u8 = (n % 10) as u8;
    if n < 10 {
        let mut r: Vec<char> = Vec::new();
        r.push((48 + d) as char);
        assert(r@ =~= decimal(n as nat));
        r
    } else {
        let mut r = decimal_chars(n / 10);
        r.push((48 + d) as char);
        r
    }
}

/// Writes a natural number in decimal notation.
pub fn write_decimal(n: u128) -> (r: String)
    ensures
        r@ == decimal(n as nat),
{
    text_of(&decimal_chars(n))
}

/// Writes an integer in decimal notation.
pub fn write_signed(n: i64) -> (r: String)
    ensures
        r@ == signed_decimal(n as int),
{
    if n < 0 {
        let mut r = String::new();
        r.push('-');
        r.append(write_decimal((0 - (n as i128)) as u128).as_str());
        assert(r@ =~= signed_decimal(n as int));
        r
    } else {
        write_decimal(n as u128)
    }
}

proof fn lemma_decimal(n: nat)
    ensures
        decimal(n).len() > 0,
        all_digits(decimal(n)),
        digits_value(decimal(n)) == n,
    decreases n,
{
    reveal_with_fuel(digits_value, 2);
    if n < 10 {
        assert(decimal(n).drop_last() =~= seq![]);
    } else {
        lemma_decimal(n / 10);
        assert(decimal(n).drop_last() =~= decimal(n / 10));
        assert forall|i: int| 0 <= i < decimal(n).len() implies is_digit(#[trigger] decimal(n)[i]) by {
            if i < decimal(n).len() - 1 {
                assert(is_digit(decimal(n / 10)[i]));
            }
        }
    }
}

/// Reading a number in decimal notation gives back the number that was written.
pub proof fn law_decimal_round_trip(n: nat, max: nat)
    requires
        n <= max,
    ensures
        parse_unsigned(decimal(n), max) == Some(n),
{
    lemma_decimal(n);
    assert(is_digit(decimal(n)[0]));
}

/// Reading an integer of 32 bits in decimal notation gives back the integer that was written.
pub proof fn law_signed_round_trip(n: int, default: int)
    requires
        -0x8000_0000 <= n <= 0x7fff_ffff,
    ensures
        parse_signed(signed_decimal(n)) == Some(n),
        signed_or(signed_decimal(n), default) == n,
{
    if n < 0 {
        let m = (-n) as nat;
        lemma_decimal(m);
        assert(signed_decimal(n).skip(1) =~= decimal(m));
        assert(signed_decimal(n)[0] == '-');
    } else {
        law_decimal_round_trip(n as nat, 0x7fff_ffff);
        lemma_decimal(n as nat);
        assert(is_digit(decimal(n as nat)[0]));
    }
}

/// A number in decimal notation is made of digits, with `-` before a negative one.
pub proof fn law_signed_digits(n: int)
    ensures
        signed_decimal(n).len() > 0,
        n >= 0 ==> all_digits(signed_decimal(n)),
        n < 0 ==> signed_decimal(n)[0] == '-' && all_digits(signed_decimal(n).skip(1)),
{
    if n < 0 {
        lemma_decimal((-n) as nat);
        assert(signed_decimal(n).skip(1) =~= decimal((-n) as nat));
    } else {
        lemma_decimal(n as nat);
    }
}

/// Different numbers are written differently.
pub proof fn law_decimals_differ(a: nat, b: nat)
    requires
        decimal(a) == decimal(b),
    ensures
        a == b,
{
    let max = if a < b {
        b
    } else {
        a
    };
    law_decimal_round_trip(a, max);
    law_decimal_round_trip(b, max);
}

/// A text is a number just where it is digits, one at least, and stands for no more than the limit; a
/// plus sign may stand before it.
pub proof fn law_numbers_that_are_read(s: Seq<char>, c: char, max: nat)
    ensures
        parse_unsigned(seq![], max) is None,
        s.len() > 0 && !is_digit(s[0]) && s[0] != '+' ==> parse_unsigned(s, max) is None,
        !is_digit(c) && s.len() > 0 ==> parse_unsigned(s.push(c), max) is None,
        s.len() > 0 && all_digits(s) ==> parse_unsigned(seq!['+'] + s, max) == parse_unsigned(s, max),
        s.len() > 0 && all_digits(s) && is_digit(c) ==> (parse_unsigned(s, max) matches Some(n)
            ==> parse_unsigned(s.push(c), max) == if 10 * n + (c as u32 - '0' as u32) <= max {
            Some((10 * n + (c as u32 - '0' as u32)) as nat)
        } else {
            None
        }),
        parse_unsigned(s, max) matches Some(n) ==> n <= max,
{
    let t = s.push(c);
    assert(t.drop_last() =~= s);
    assert(t[t.len() - 1] == c);
    if !is_digit(c) && s.len() > 0 {
        assert(!all_digits(t));
        let u = t.skip(1);
        assert(u[u.len() - 1] == c);
        assert(!all_digits(u));
    }
    if s.len() > 0 && all_digits(s) {
        assert(is_digit(s[0]));
        assert((seq!['+'] + s).skip(1) =~= s);
        if is_digit(c) {
            assert forall|i: int| 0 <= i < t.len() implies is_digit(#[trigger] t[i]) by {
                if i < s.len() {
                    assert(is_digit(s[i]));
                }
            }
            assert(t[0] == s[0]);
        }
    }
}

/// A minus sign before digits makes a number negative.
pub proof fn law_minus_sign(s: Seq<char>, n: nat)
    requires
        s.len() > 0,
        all_digits(s),
        parse_unsigned(s, 0x7fff_ffff) == Some(n),
    ensures
        parse_signed(seq!['-'] + s) == Some(-(n as int)),
        parse_signed(s) == Some(n as int),
        parse_signed(seq!['+'] + s) == Some(n as int),
{
    assert(is_digit(s[0]));
    assert((seq!['-'] + s).skip(1) =~= s);
    assert((seq!['+'] + s).skip(1) =~= s);
}

} // verus!
