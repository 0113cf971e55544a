//! Numbers as text.

use crate::model::{Number, NumberModel};
use crate::text::push_char;
use vstd::prelude::*;

verus! {

/// The character for a digit.
pub open spec fn digit_char(d: int) -> char {
    if d == 0 {
        '0'
    } else if d == 1 {
        '1'
    } else if d == 2 {
        '2'
    } else if d == 3 {
        '3'
    } else if d == 4 {
        '4'
    } else if d == 5 {
        '5'
    } else if d == 6 {
        '6'
    } else if d == 7 {
        '7'
    } else if d == 8 {
        '8'
    } else {
        '9'
    }
}

/// A natural number in decimal digits, without leading zeros.
pub open spec fn decimal(n: nat) -> Seq<char>
    decreases n,
{
    if n < 10 {
        seq![digit_char(n as int)]
    } else {
        decimal(n / 10).push(digit_char((n % 10) as int))
    }
}

/// An integer in decimal digits, with `-` before a negative one.
pub open spec fn signed_decimal(n: int) -> Seq<char> {
    if n < 0 {
        seq!['-'] + decimal((-n) as nat)
    } else {
        decimal(n as nat)
    }
}

/// The text of a number: a whole number in decimal digits; `NaN`, `+Inf` and
/// `-Inf` for what is no finite number; a finite number with a fraction by
/// its decimal text.
pub open spec fn number_text(number: NumberModel) -> Seq<char> {
    match number {
        NumberModel::Unsigned(n) => decimal(n as nat),
        NumberModel::Signed(n) => signed_decimal(n as int),
        NumberModel::NotANumber => "NaN"@,
        NumberModel::PositiveInfinity => "+Inf"@,
        NumberModel::NegativeInfinity => "-Inf"@,
        NumberModel::Decimal(text) => text,
    }
}

/// The character for a digit.
pub fn digit(d: u8) -> (c: char)
    requires
        d < 10,
    ensures
        c == digit_char(d as int),
{
    match d {
        0 => '0',
        1 => '1',
        2 => '2',
        3 => '3',
        4 => '4',
        5 => '5',
        6 => '6',
        7 => '7',
        8 => '8',
        _ => '9',
    }
}

/// Appends `n` in decimal digits.
pub fn write_decimal(out: &mut String, n: u128)
    ensures
        final(out)@ == old(out)@ + decimal(n as nat),
    decreases n,
{
    if n >= 10 {
        write_decimal(out, n / 10);
    }
    let last: u8 = (n % 10) as u8;
    push_char(out, digit(last));
    proof {
        assert(out@ =~= old(out)@ + decimal(n as nat));
    }
}

/// Appends `n` in decimal digits, with `-` before a negative one.
pub fn write_signed_decimal(out: &mut String, n: i64)
    ensures
        final(out)@ == old(out)@ + signed_decimal(n as int),
{
    if n < 0 {
        push_char(out, '-');
        let magnitude: i128 = -(n as i128);
        write_decimal(out, magnitude as u128);
    } else {
        write_decimal(out, n as u128);
    }
}

impl Number {
    /// Appends the text of the number.
    pub fn serialize(&self, out: &mut String)
        ensures
            final(out)@ == old(out)@ + number_text(self.deep_view()),
    {
        match self {
            Number::Unsigned(n) => write_decimal(out, *n as u128),
            Number::Signed(n) => write_signed_decimal(out, *n),
            Number::NotANumber => out.append("NaN"),
            Number::PositiveInfinity => out.append("+Inf"),
            Number::NegativeInfinity => out.append("-Inf"),
            Number::Decimal(text) => out.append(text.as_str()),
        }
    }
}

} // verus!
