//! The line of text that carries one reading to the host.

use vstd::prelude::*;
use vstd::string::*;

verus! {

/// The character of a decimal digit.
pub open spec fn digit_char(digit: int) -> char {
    seq!['0', '1', '2', '3', '4', '5', '6', '7', '8', '9'][digit]
}

/// The decimal digits of `value`, without leading zeros.
pub open spec fn decimal_digits(value: nat) -> Seq<char>
    decreases value,
{
    if value < 10 {
        seq![digit_char(value as int)]
    } else {
        decimal_digits(value / 10).push(digit_char((value % 10) as int))
    }
}

/// `value` in decimal, with a minus sign in front if it is negative.
pub open spec fn decimal(value: int) -> Seq<char> {
    if value < 0 {
        seq!['-'] + decimal_digits((-value) as nat)
    } else {
        decimal_digits(value as nat)
    }
}

/// The line for a reading: `Force: `, the reading in decimal, and a carriage
/// return.
pub open spec fn reading_line(reading: int) -> Seq<char> {
    "Force: "@ + decimal(reading) + seq!['\r']
}

/// `ufmt`'s `uDisplay::fmt` for `i32`, written into a fresh `String`. The
/// crate writes the decimal digits of the magnitude, most significant first
/// and without leading zeros, after a `-` for a negative value; writing into
/// a `String` cannot fail.
#[verifier::external_body]
pub(crate) fn decimal_text(value: i32) -> (text: String)
    ensures
        text@ == decimal(value as int),
{
    let mut text = String::new();
    let _ = ufmt::uDisplay::fmt(&value, &mut ufmt::Formatter::new(&mut text));
    text
}

/// Formats the line that reports `reading` to the host.
pub fn format_reading(reading: i32) -> (line: String)
    ensures
        line@ == reading_line(reading as int),
{
    let mut line = String::from_str("Force: ");
    let digits = decimal_text(reading);
    line.append(digits.as_str());
    line.append("\r");
    proof {
        reveal_strlit("\r");
        assert("\r"@ =~= seq!['\r']);
    }
    line
}

} // verus!
