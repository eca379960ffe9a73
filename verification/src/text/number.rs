//! Decimal numbers as text.
use crate::text::lemmas;
use crate::text::model;
use vstd::prelude::*;
use vstd::slice::slice_subrange;

verus! {

/// Whether the character is an ASCII decimal digit.
pub fn is_digit(c: char) -> (r: bool)
    ensures
        r == model::is_digit(c),
{
    '0' <= c && c <= '9'
}

/// Whether there is nothing but ASCII decimal digits.
pub fn all_digits(s: &[char]) -> (r: bool)
    ensures
        r == model::all_digits(s@),
{
    let mut i: usize = 0;
    while i < s.len()
        invariant
            i <= s.len(),
            forall|k: int| 0 <= k < i ==> model::is_digit(#[trigger] s@[k]),
        decreases s.len() - i,
    {
        if !is_digit(s[i]) {
            assert(!model::is_digit(s@[i as int]));
            return false;
        }
        i = i + 1;
    }
    true
}

/// The number that a row of digits stands for, where it fits in 64 bits.
pub fn digits_value(s: &[char]) -> (r: Option<u64>)
    requires
        model::all_digits(s@),
    ensures
        match r {
            Some(n) => model::digits_value(s@) == n,
            None => model::digits_value(s@) > u64::MAX,
        },
{
    let mut n: u64 = 0;
    let mut i: usize = 0;
    while i < s.len()
        invariant
            i <= s.len(),
            model::all_digits(s@),
            n == model::digits_value(s@.take(i as int)),
        decreases s.len() - i,
    {
        let c = s[i];
        assert(model::is_digit(s@[i as int]));
        let d: u64 = (c as u64) - 48;
        proof {
            assert(s@.take(i + 1).drop_last() == s@.take(i as int));
            assert(model::digits_value(s@.take(i + 1)) == n * 10 + d);
            lemmas::lemma_digits_value_prefix(s@, i + 1);
        }
        if n > (u64::MAX - d) / 10 {
            return None;
        }
        n = n * 10 + d;
        i = i + 1;
    }
    assert(s@.take(i as int) == s@);
    Some(n)
}

/// Reads a decimal number of at most `max`.
pub fn parse_uint(s: &[char], max: u64) -> (r: Option<u64>)
    ensures
        match r {
            Some(n) => model::parse_uint(s@, max as nat) == Some(n as nat) && n <= max,
            None => model::parse_uint(s@, max as nat) is None,
        },
{
    let digits = if s.len() > 0 && s[0] == '+' {
        let d = slice_subrange(s, 1, s.len());
        assert(d@ == s@.skip(1));
        d
    } else {
        s
    };
    if digits.len() == 0 || !all_digits(digits) {
        return None;
    }
    match digits_value(digits) {
        Some(n) => if n <= max {
            Some(n)
        } else {
            None
        },
        None => None,
    }
}

/// Reads a decimal number of 32 bits.
pub fn parse_u32(s: &[char]) -> (r: Option<u32>)
    ensures
        match r {
            Some(n) => model::parse_uint(s@, u32::MAX as nat) == Some(n as nat),
            None => model::parse_uint(s@, u32::MAX as nat) is None,
        },
{
    match parse_uint(s, u32::MAX as u64) {
        Some(n) => Some(n as u32),
        None => None,
    }
}

/// Reads a decimal number of 64 bits.
pub fn parse_u64(s: &[char]) -> (r: Option<u64>)
    ensures
        match r {
            Some(n) => model::parse_uint(s@, u64::MAX as nat) == Some(n as nat),
            None => model::parse_uint(s@, u64::MAX as nat) is None,
        },
{
    parse_uint(s, u64::MAX)
}

/// Reads a decimal number of 32 bits with sign.
pub fn parse_i32(s: &[char]) -> (r: Option<i32>)
    ensures
        match r {
            Some(n) => model::parse_i32(s@) == Some(n as int),
            None => model::parse_i32(s@) is None,
        },
{
    if s.len() > 0 && s[0] == '-' {
        let digits = slice_subrange(s, 1, s.len());
        assert(digits@ == s@.skip(1));
        if digits.len() == 0 || !all_digits(digits) {
            return None;
        }
        match digits_value(digits) {
            Some(n) => if n <= 0x8000_0000 {
                let m: i64 = 0 - (n as i64);
                Some(m as i32)
            } else {
                None
            },
            None => None,
        }
    } else {
        match parse_uint(s, 0x7fff_ffff) {
            Some(n) => Some(n as i32),
            None => None,
        }
    }
}

/// Appends a number in decimal.
pub fn push_decimal(out: &mut String, n: u64)
    ensures
        final(out)@ == old(out)@ + model::decimal(n as nat),
    decreases n,
{
    if n >= 10 {
        push_decimal(out, n / 10);
    }
    let d: u8 = (n % 10) as u8;
    out.push((48 + d) as char);
}

/// Appends a number with sign in decimal.
pub fn push_decimal_i32(out: &mut String, n: i32)
    ensures
        final(out)@ == old(out)@ + model::decimal_int(n as int),
{
    if n < 0 {
        out.push('-');
        push_decimal(out, (0 - n as i64) as u64);
    } else {
        push_decimal(out, n as u64);
    }
}

/// Appends a number in decimal, with a zero before it where it has one digit.
pub fn push_decimal2(out: &mut String, n: u64)
    ensures
        final(out)@ == old(out)@ + model::decimal2(n as nat),
{
    if n < 10 {
        out.push('0');
    }
    push_decimal(out, n);
}

/// A number in decimal.
pub fn decimal(n: u64) -> (r: String)
    ensures
        r@ == model::decimal(n as nat),
{
    let mut out = String::new();
    push_decimal(&mut out, n);
    out
}

} // verus!
