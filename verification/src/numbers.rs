//! Decimal numbers as text.
use vstd::prelude::*;

use crate::text::chars_of;

verus! {

/// The decimal digit of `d`.
pub open spec fn digit(d: int) -> char {
    ('0' as int + d) as char
}

/// `n` in decimal, without leading zeros.
pub open spec fn decimal(n: nat) -> Seq<char>
    decreases n,
{
    if n < 10 {
        seq![digit(n as int)]
    } else {
        decimal(n / 10).push(digit((n % 10) as int))
    }
}

/// `n` in decimal, with a minus sign where it is negative.
pub open spec fn signed_decimal(n: int) -> Seq<char> {
    if n < 0 {
        seq!['-'] + decimal((-n) as nat)
    } else {
        decimal(n as nat)
    }
}

/// `n` in decimal with at least two digits.
pub open spec fn two_digits(n: nat) -> Seq<char> {
    if n < 10 {
        seq!['0'] + decimal(n)
    } else {
        decimal(n)
    }
}

/// `n` in decimal.
pub fn decimal_text(n: u64) -> (r: String)
    ensures
        r@ == decimal(n as nat),
    decreases n,
{
    let d: u8 = (n % 10) as u8;
    let c: char = (48u8 + d) as char;
    let mut r = if n < 10 {
        String::new()
    } else {
        decimal_text(n / 10)
    };
    r.push(c);
    assert(r@ =~= decimal(n as nat));
    r
}

/// `n` in decimal.
pub fn size_text(n: usize) -> (r: String)
    ensures
        r@ == decimal(n as nat),
{
    decimal_text(n as u64)
}

/// `n` in decimal, with its sign.
pub fn signed_text(n: i64) -> (r: String)
    ensures
        r@ == signed_decimal(n as int),
{
    if n < 0 {
        let m: u64 = (-(n as i128)) as u64;
        let d = decimal_text(m);
        let mut r = String::new();
        r.push('-');
        r.append(d.as_str());
        assert(r@ =~= signed_decimal(n as int));
        r
    } else {
        decimal_text(n as u64)
    }
}

/// `n` in decimal with at least two digits.
pub fn two_digit_text(n: u32) -> (r: String)
    ensures
        r@ == two_digits(n as nat),
{
    let d = decimal_text(n as u64);
    if n < 10 {
        let mut r = String::new();
        r.push('0');
        r.append(d.as_str());
        assert(r@ =~= two_digits(n as nat));
        r
    } else {
        d
    }
}

// ---------------------------------------------------------------------------
// Reading
// ---------------------------------------------------------------------------
/// Why a text is not a number of the wanted size.
#[derive(Clone, Copy, Debug, PartialEq, Eq, Structural)]
pub enum NumberFault {
    Empty,
    InvalidDigit,
    TooLarge,
}

impl NumberFault {
    /// The fault in words.
    pub open spec fn says(self) -> Seq<char> {
        match self {
            NumberFault::Empty => "cannot parse integer from empty string"@,
            NumberFault::InvalidDigit => "invalid digit found in string"@,
            NumberFault::TooLarge => "number too large to fit in target type"@,
        }
    }

    /// The fault in words.
    pub fn message(&self) -> (r: &'static str)
        ensures
            r@ == self.says(),
    {
        match self {
            NumberFault::Empty => "cannot parse integer from empty string",
            NumberFault::InvalidDigit => "invalid digit found in string",
            NumberFault::TooLarge => "number too large to fit in target type",
        }
    }
}

/// Whether `c` is a decimal digit.
pub open spec fn is_digit(c: char) -> bool {
    '0' <= c <= '9'
}

/// The value of `acc` followed by the digits of `s`, or the first fault from the left.
pub open spec fn digits_from(s: Seq<char>, acc: int, max: int) -> Result<int, NumberFault>
    decreases s.len(),
{
    if s.len() == 0 {
        Ok(acc)
    } else if !is_digit(s[0]) {
        Err(NumberFault::InvalidDigit)
    } else {
        let next = 10 * acc + (s[0] as int - '0' as int);
        if next > max {
            Err(NumberFault::TooLarge)
        } else {
            digits_from(s.drop_first(), next, max)
        }
    }
}

/// The unsigned number at most `max` that `s` writes, with an optional plus sign.
pub open spec fn number_of(s: Seq<char>, max: int) -> Result<int, NumberFault> {
    if s.len() == 0 {
        Err(NumberFault::Empty)
    } else if s.len() > 1 && s[0] == '+' {
        digits_from(s.drop_first(), 0, max)
    } else {
        digits_from(s, 0, max)
    }
}

/// A number that was read lies between zero and the maximum.
pub proof fn lemma_number_range(s: Seq<char>, max: int)
    requires
        max >= 0,
    ensures
        number_of(s, max) matches Ok(n) ==> 0 <= n <= max,
{
    lemma_digits_range(s, 0, max);
    if s.len() > 0 {
        lemma_digits_range(s.drop_first(), 0, max);
    }
}

proof fn lemma_digits_range(s: Seq<char>, acc: int, max: int)
    requires
        0 <= acc <= max,
    ensures
        digits_from(s, acc, max) matches Ok(n) ==> 0 <= n <= max,
    decreases s.len(),
{
    if s.len() > 0 && is_digit(s[0]) {
        let next = 10 * acc + (s[0] as int - '0' as int);
        if next <= max {
            lemma_digits_range(s.drop_first(), next, max);
        }
    }
}

/// The number at most `max` that `s` writes.
fn parse_up_to(s: &str, max: u64) -> (r: Result<u64, NumberFault>)
    ensures
        number_of(s@, max as int) == (match r {
            Ok(n) => Ok(n as int),
            Err(e) => Err(e),
        }),
        r matches Ok(n) ==> n <= max,
{
    let v = chars_of(s);
    if v.len() == 0 {
        return Err(NumberFault::Empty);
    }
    let mut i: usize = if v.len() > 1 && v[0] == '+' {
        1
    } else {
        0
    };
    let mut acc: u64 = 0;
    proof {
        assert(v@.skip(0) =~= v@);
        assert(v@.skip(1) =~= v@.drop_first());
    }
    while i < v.len()
        invariant
            i <= v@.len(),
            v@ == s@,
            acc <= max,
            number_of(s@, max as int) == digits_from(v@.skip(i as int), acc as int, max as int),
        decreases v@.len() - i,
    {
        let c = v[i];
        assert(v@.skip(i as int).drop_first() =~= v@.skip(i + 1));
        if !('0' <= c && c <= '9') {
            return Err(NumberFault::InvalidDigit);
        }
        let next: u128 = 10 * (acc as u128) + (c as u128 - 48);
        if next > max as u128 {
            return Err(NumberFault::TooLarge);
        }
        acc = next as u64;
        i = i + 1;
    }
    Ok(acc)
}

/// The number that `s` writes.
pub fn parse_u32(s: &str) -> (r: Result<u32, NumberFault>)
    ensures
        number_of(s@, u32::MAX as int) == (match r {
            Ok(n) => Ok(n as int),
            Err(e) => Err(e),
        }),
{
    match parse_up_to(s, u32::MAX as u64) {
        Ok(n) => Ok(n as u32),
        Err(e) => Err(e),
    }
}

/// The number that `s` writes.
pub fn parse_usize(s: &str) -> (r: Result<usize, NumberFault>)
    ensures
        number_of(s@, usize::MAX as int) == (match r {
            Ok(n) => Ok(n as int),
            Err(e) => Err(e),
        }),
{
    match parse_up_to(s, usize::MAX as u64) {
        Ok(n) => Ok(n as usize),
        Err(e) => Err(e),
    }
}

} // verus!
