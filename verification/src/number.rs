//! Integers as decimal text: what a text must look like to write an integer,
//! which integer it writes, and the standard library's parsers for the two
//! widest integer types.

use vstd::prelude::*;

verus! {

/// Whether `c` is one of the ten decimal digits.
pub open spec fn is_digit(c: char) -> bool {
    '0' <= c <= '9'
}

/// Whether `s` holds decimal digits only.
pub open spec fn all_digits(s: Seq<char>) -> bool {
    forall|i: int| 0 <= i < s.len() ==> is_digit(#[trigger] s[i])
}

/// The number that the decimal digits `digits` write.
pub open spec fn decimal(digits: Seq<char>) -> nat
    decreases digits.len(),
{
    if digits.len() == 0 {
        0
    } else {
        (10 * decimal(digits.drop_last()) + (digits.last() as int - '0' as int)) as nat
    }
}

/// The integer that `text` writes, if it writes one: decimal digits, at least
/// one of them, after at most one sign, which is `+` or, where `signed`, `-`.
/// Nothing else may stand in `text`: no whitespace, no `_`, no second sign.
pub open spec fn integer(text: Seq<char>, signed: bool) -> Option<int> {
    let negative = signed && text.len() > 0 && text[0] == '-';
    let digits = if text.len() > 0 && (text[0] == '+' || negative) {
        text.drop_first()
    } else {
        text
    };
    if digits.len() > 0 && all_digits(digits) {
        Some(
            if negative {
                -(decimal(digits) as int)
            } else {
                decimal(digits) as int
            },
        )
    } else {
        None
    }
}

/// The integer that `text` writes, if it writes one from `min` to `max`.
pub open spec fn integer_within(text: Seq<char>, signed: bool, min: int, max: int) -> Option<int> {
    match integer(text, signed) {
        Some(n) => if min <= n <= max {
            Some(n)
        } else {
            None
        },
        None => None,
    }
}

/// Calls `str::parse::<u128>`, that is `u128::from_str`, and keeps the value
/// of a successful parse.
///
/// Trusted: the standard library documents that the text is to be an optional
/// `+` followed by decimal digits only, and that an empty text, a text
/// without digits, any other character and a number that does not fit in a
/// `u128` are errors. The contract says so: the result is the integer that
/// the text writes without `-`, where that is a `u128`, and absent otherwise.
#[verifier::external_body]
pub(crate) fn parse_u128(text: &str) -> (value: Option<u128>)
    ensures
        match integer_within(text@, false, 0, u128::MAX as int) {
            Some(n) => value == Some(n as u128),
            None => value is None,
        },
{
    text.parse::<u128>().ok()
}

/// Calls `str::parse::<i128>`, that is `i128::from_str`, and keeps the value
/// of a successful parse.
///
/// Trusted: the standard library documents that the text is to be an optional
/// `+` or `-` followed by decimal digits only, and that an empty text, a text
/// without digits, any other character and a number that does not fit in an
/// `i128` are errors. The contract says so: the result is the integer that
/// the text writes, where that is an `i128`, and absent otherwise.
#[verifier::external_body]
pub(crate) fn parse_i128(text: &str) -> (value: Option<i128>)
    ensures
        match integer_within(text@, true, i128::MIN as int, i128::MAX as int) {
            Some(n) => value == Some(n as i128),
            None => value is None,
        },
{
    text.parse::<i128>().ok()
}

} // verus!
