//! Unsigned numbers written in decimal.
use crate::text::{chars_of, is_digit};
use vstd::prelude::*;

verus! {

/// The decimal digit for a value below ten.
pub open spec fn digit_char(d: int) -> char {
    ((48 + d) as u8) as char
}

/// A number in decimal, without leading zeros.
pub open spec fn decimal(n: nat) -> Seq<char>
    decreases n,
{
    if n < 10 {
        seq![digit_char(n as int)]
    } else {
        decimal(n / 10).push(digit_char((n % 10) as int))
    }
}

fn digit_of(d: u64) -> (c: char)
    requires
        d < 10,
    ensures
        c == digit_char(d as int),
{
    let n: u8 = d as u8;
    (48 + n) as char
}

/// The decimal text of `n`.
pub fn u64_text(n: u64) -> (r: String)
    ensures
        r@ == decimal(n as nat),
    decreases n,
{
    if n < 10 {
        let mut out = String::new();
        out.push(digit_of(n));
        assert(out@ =~= seq![digit_char(n as int)]);
        out
    } else {
        let mut out = u64_text(n / 10);
        out.push(digit_of(n % 10));
        out
    }
}

/// Why a text is no number.
#[derive(Clone, Copy, Debug, PartialEq, Eq, Structural)]
pub enum NumberError {
    Empty,
    InvalidDigit,
    TooLarge,
}

impl NumberError {
    pub open spec fn message_text(self) -> Seq<char> {
        match self {
            NumberError::Empty => "cannot parse integer from empty string"@,
            NumberError::InvalidDigit => "invalid digit found in string"@,
            NumberError::TooLarge => "number too large to fit in target type"@,
        }
    }

    /// What is wrong, in words.
    pub fn message(self) -> (r: &'static str)
        ensures
            r@ == self.message_text(),
    {
        match self {
            NumberError::Empty => "cannot parse integer from empty string",
            NumberError::InvalidDigit => "invalid digit found in string",
            NumberError::TooLarge => "number too large to fit in target type",
        }
    }
}

/// The value of a run of digits that does not exceed `max`.
pub open spec fn digits_value(s: Seq<char>, max: nat) -> Result<nat, NumberError>
    decreases s.len(),
{
    if s.len() == 0 {
        Ok(0)
    } else {
        match digits_value(s.drop_last(), max) {
            Err(e) => Err(e),
            Ok(v) => if !is_digit(s.last()) {
                Err(NumberError::InvalidDigit)
            } else if v * 10 + (s.last() as int - 48) > max {
                Err(NumberError::TooLarge)
            } else {
                Ok((v * 10 + (s.last() as int - 48)) as nat)
            },
        }
    }
}

/// The number that `s` writes: digits, after an optional plus sign.
pub open spec fn number_value(s: Seq<char>, max: nat) -> Result<nat, NumberError> {
    if s.len() == 0 {
        Err(NumberError::Empty)
    } else if s[0] == '+' && s.len() > 1 {
        digits_value(s.skip(1), max)
    } else {
        digits_value(s, max)
    }
}

/// What a parser returned, in mathematical numbers.
pub open spec fn number_result(r: Result<u64, NumberError>) -> Result<nat, NumberError> {
    match r {
        Ok(v) => Ok(v as nat),
        Err(e) => Err(e),
    }
}

proof fn digits_error_sticks(s: Seq<char>, max: nat, n: int)
    requires
        0 <= n <= s.len(),
        digits_value(s.take(n), max) is Err,
    ensures
        digits_value(s, max) == digits_value(s.take(n), max),
    decreases s.len() - n,
{
    if n == s.len() {
        assert(s.take(n) =~= s);
    } else {
        assert(s.take(n + 1).drop_last() =~= s.take(n));
        digits_error_sticks(s, max, n + 1);
    }
}

/// Reads a number that must not exceed `max`.
pub fn parse_number(text: &str, max: u64) -> (r: Result<u64, NumberError>)
    ensures
        number_result(r) == number_value(text@, max as nat),
{
    let chars = chars_of(text);
    if chars.len() == 0 {
        return Err(NumberError::Empty);
    }
    let start: usize = if chars[0] == '+' && chars.len() > 1 {
        1
    } else {
        0
    };
    let ghost digits = text@.skip(start as int);
    assert(text@.skip(0) =~= text@);
    assert(digits.take(0) =~= Seq::<char>::empty());
    let mut value: u64 = 0;
    let mut i: usize = start;
    while i < chars.len()
        invariant
            start <= i <= chars.len(),
            chars@ == text@,
            digits == text@.skip(start as int),
            value <= max,
            digits_value(digits.take(i - start), max as nat) == Ok::<nat, NumberError>(
                value as nat,
            ),
            number_value(text@, max as nat) == digits_value(digits, max as nat),
        decreases chars.len() - i,
    {
        let c = chars[i];
        let ghost next = digits.take(i - start + 1);
        assert(next.drop_last() =~= digits.take(i - start));
        assert(next.last() == c);
        if !('0' <= c && c <= '9') {
            proof {
                digits_error_sticks(digits, max as nat, i - start + 1);
            }
            return Err(NumberError::InvalidDigit);
        }
        let d: u64 = c as u64 - 48;
        if value > max / 10 || d > max - value * 10 {
            proof {
                assert(value * 10 + d > max);
                digits_error_sticks(digits, max as nat, i - start + 1);
            }
            return Err(NumberError::TooLarge);
        }
        value = value * 10 + d;
        i += 1;
    }
    assert(digits.take(i - start) =~= digits);
    Ok(value)
}

/// Reading a number's decimal text gives the number back.
pub proof fn decimal_round_trip(n: nat, max: nat)
    requires
        n <= max,
    ensures
        digits_value(decimal(n), max) == Ok::<nat, NumberError>(n),
        decimal(n).len() > 0,
        forall|i: int| 0 <= i < decimal(n).len() ==> is_digit(#[trigger] decimal(n)[i]),
    decreases n,
{
    let s = decimal(n);
    if n < 10 {
        assert(s.drop_last() =~= Seq::<char>::empty());
        assert(digits_value(s.drop_last(), max) == Ok::<nat, NumberError>(0));
    } else {
        decimal_round_trip(n / 10, max);
        assert(s.drop_last() =~= decimal(n / 10));
    }
}

/// Different numbers have different decimal texts.
pub proof fn decimal_injective(a: nat, b: nat)
    requires
        decimal(a) == decimal(b),
    ensures
        a == b,
{
    let max = if a < b {
        b
    } else {
        a
    };
    decimal_round_trip(a, max);
    decimal_round_trip(b, max);
}

/// A number has the digits of its tenth and its last digit behind them.
pub proof fn digits_make_numbers(n: nat, d: nat)
    requires
        d < 10,
    ensures
        decimal(d) == seq![(48 + d) as u8 as char],
        n > 0 ==> decimal(n * 10 + d) == decimal(n).push((48 + d) as u8 as char),
{
    assert((n * 10 + d) / 10 == n);
    assert((n * 10 + d) % 10 == d);
}

/// A text is read digit by digit; what is no digit, and what is too large, is told.
pub proof fn digits_are_read(s: Seq<char>, c: char, max: nat)
    ensures
        digits_value(Seq::empty(), max) == Ok::<nat, NumberError>(0),
        digits_value(s, max) is Err ==> digits_value(s.push(c), max) == digits_value(s, max),
        digits_value(s, max) matches Ok(v) ==> {
            &&& !('0' <= c && c <= '9') ==> digits_value(s.push(c), max) == Err::<
                nat,
                NumberError,
            >(NumberError::InvalidDigit)
            &&& '0' <= c && c <= '9' && v * 10 + (c as int - 48) <= max ==> digits_value(
                s.push(c),
                max,
            ) == Ok::<nat, NumberError>((v * 10 + (c as int - 48)) as nat)
            &&& '0' <= c && c <= '9' && v * 10 + (c as int - 48) > max ==> digits_value(
                s.push(c),
                max,
            ) == Err::<nat, NumberError>(NumberError::TooLarge)
        },
        number_value(Seq::empty(), max) == Err::<nat, NumberError>(NumberError::Empty),
        s.len() > 0 ==> number_value(seq!['+'] + s, max) == digits_value(s, max),
        s.len() > 0 && s[0] != '+' ==> number_value(s, max) == digits_value(s, max),
{
    assert(s.push(c).drop_last() =~= s);
    if s.len() > 0 {
        assert((seq!['+'] + s).skip(1) =~= s);
    }
}

/// What is wrong with a number is told in words.
pub proof fn number_errors_are_told()
    ensures
        NumberError::Empty.message_text() == "cannot parse integer from empty string"@,
        NumberError::InvalidDigit.message_text() == "invalid digit found in string"@,
        NumberError::TooLarge.message_text() == "number too large to fit in target type"@,
{
}

} // verus!
