//! What holds of numbers as text.
use vstd::prelude::*;

use crate::numbers::{
    decimal, digit, digits_from, is_digit, number_of, signed_decimal, two_digits, NumberFault,
};

verus! {

proof fn lemma_digits_append(s: Seq<char>, c: char, acc: int, max: int)
    ensures
        digits_from(s.push(c), acc, max) == (match digits_from(s, acc, max) {
            Err(e) => Err(e),
            Ok(n) => if !is_digit(c) {
                Err(NumberFault::InvalidDigit)
            } else if 10 * n + (c as int - '0' as int) > max {
                Err(NumberFault::TooLarge)
            } else {
                Ok(10 * n + (c as int - '0' as int))
            },
        }),
    decreases s.len(),
{
    let t = s.push(c);
    if s.len() == 0 {
        reveal_with_fuel(digits_from, 2);
        assert(t.drop_first() =~= s);
    } else {
        assert(t.drop_first() =~= s.drop_first().push(c));
        assert(t[0] == s[0]);
        let next = 10 * acc + (s[0] as int - '0' as int);
        lemma_digits_append(s.drop_first(), c, next, max);
    }
}

proof fn lemma_decimal_digits(n: nat, max: int)
    requires
        n <= max,
    ensures
        decimal(n).len() >= 1,
        forall|i: int| 0 <= i < decimal(n).len() ==> is_digit(#[trigger] decimal(n)[i]),
        digits_from(decimal(n), 0, max) == Ok::<int, NumberFault>(n as int),
        n > 0 ==> decimal(n)[0] != '0',
        n < 10 ==> decimal(n).len() == 1,
        10 <= n < 100 ==> decimal(n).len() == 2,
    decreases n,
{
    if n < 10 {
        assert(decimal(n).drop_first() =~= seq![]);
        reveal_with_fuel(digits_from, 2);
    } else {
        lemma_decimal_digits(n / 10, max);
        lemma_digits_append(decimal(n / 10), digit((n % 10) as int), 0, max);
        assert(digit((n % 10) as int) as int - '0' as int == n % 10);
    }
}

/// What is written in decimal is read back: digits only, without a leading zero, and with two digits where
/// two are asked for. A negative number has a minus sign in front.
pub proof fn a_decimal_reads_back(n: nat, max: int)
    requires
        n <= max,
    ensures
        number_of(decimal(n), max) == Ok::<int, NumberFault>(n as int),
        decimal(n).len() >= 1,
        forall|i: int| 0 <= i < decimal(n).len() ==> '0' <= #[trigger] decimal(n)[i] <= '9',
        n > 0 ==> decimal(n)[0] != '0',
        n < 100 ==> two_digits(n).len() == 2,
        number_of(two_digits(n), max) == Ok::<int, NumberFault>(n as int),
        signed_decimal(n as int) == decimal(n),
        n > 0 ==> signed_decimal(-(n as int)) == seq!['-'] + decimal(n),
{
    lemma_decimal_digits(n, max);
    assert(is_digit(decimal(n)[0]));
    if n < 10 {
        let t = two_digits(n);
        assert(t.drop_first() =~= decimal(n));
        assert(t[0] == '0');
    }
}

/// One more digit at the end of a number makes ten times as much and the digit, as far as there is room;
/// a character that is no digit makes it no number.
pub proof fn reading_goes_digit_by_digit(s: Seq<char>, c: char, max: int)
    requires
        s.len() >= 1,
        s != seq!['+'],
        number_of(s, max) is Ok,
    ensures
        '0' <= c <= '9' && 10 * number_of(s, max)->Ok_0 + (c as int - '0' as int) <= max ==> number_of(
            s.push(c),
            max,
        ) == Ok::<int, NumberFault>(10 * number_of(s, max)->Ok_0 + (c as int - '0' as int)),
        '0' <= c <= '9' && 10 * number_of(s, max)->Ok_0 + (c as int - '0' as int) > max ==> number_of(
            s.push(c),
            max,
        ) is Err,
        !('0' <= c <= '9') ==> number_of(s.push(c), max) is Err,
{
    let t = s.push(c);
    assert(t[0] == s[0]);
    if s.len() > 1 && s[0] == '+' {
        assert(t.drop_first() =~= s.drop_first().push(c));
        lemma_digits_append(s.drop_first(), c, 0, max);
    } else {
        if s[0] == '+' {
            assert(s =~= seq!['+']);
        }
        lemma_digits_append(s, c, 0, max);
    }
}

} // verus!
