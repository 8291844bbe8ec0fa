//! The types that the text of a value can be read as: `String`, and the
//! integer types, written in decimal.

use crate::number::{integer, integer_within, parse_i128, parse_u128};
use vstd::prelude::*;

verus! {

/// A type whose values can be written as text.
pub trait FromText: Sized {
    /// Whether `text` writes a value of this type.
    spec fn readable(text: Seq<char>) -> bool;

    /// Whether `text` writes `value`.
    spec fn denotes(text: Seq<char>, value: Self) -> bool;

    /// The value that `text` writes, or nothing where it writes none.
    fn from_text(text: &str) -> (value: Option<Self>)
        ensures
            match value {
                Some(v) => Self::readable(text@) && Self::denotes(text@, v),
                None => !Self::readable(text@),
            },
    ;
}

/// Whether `value` is what reading `text` as a `T` gives: a value that `text`
/// writes, or nothing where `text` writes no `T`.
pub open spec fn read_as<T: FromText>(text: Seq<char>, value: Option<T>) -> bool {
    match value {
        Some(v) => T::readable(text) && T::denotes(text, v),
        None => !T::readable(text),
    }
}

/// Every text is a `String`, and is read as itself, in a copy of its own.
impl FromText for String {
    open spec fn readable(text: Seq<char>) -> bool {
        true
    }

    open spec fn denotes(text: Seq<char>, value: String) -> bool {
        value@ == text
    }

    fn from_text(text: &str) -> (value: Option<String>) {
        Some(text.to_owned())
    }
}

/// An unsigned integer is read from decimal digits, with `+` before them or
/// no sign; a number too large for the type is none of its values. The
/// narrower types are read through `u128`: a text writes a `u8` where it
/// writes a `u128` that is no more than `u8::MAX`.
impl FromText for u8 {
    open spec fn readable(text: Seq<char>) -> bool {
        integer_within(text, false, 0, u8::MAX as int) is Some
    }

    open spec fn denotes(text: Seq<char>, value: u8) -> bool {
        integer(text, false) == Some(value as int)
    }

    fn from_text(text: &str) -> (value: Option<u8>) {
        match parse_u128(text) {
            Some(n) => if n <= u8::MAX as u128 {
                Some(n as u8)
            } else {
                None
            },
            None => None,
        }
    }
}

impl FromText for u16 {
    open spec fn readable(text: Seq<char>) -> bool {
        integer_within(text, false, 0, u16::MAX as int) is Some
    }

    open spec fn denotes(text: Seq<char>, value: u16) -> bool {
        integer(text, false) == Some(value as int)
    }

    fn from_text(text: &str) -> (value: Option<u16>) {
        match parse_u128(text) {
            Some(n) => if n <= u16::MAX as u128 {
                Some(n as u16)
            } else {
                None
            },
            None => None,
        }
    }
}

impl FromText for u32 {
    open spec fn readable(text: Seq<char>) -> bool {
        integer_within(text, false, 0, u32::MAX as int) is Some
    }

    open spec fn denotes(text: Seq<char>, value: u32) -> bool {
        integer(text, false) == Some(value as int)
    }

    fn from_text(text: &str) -> (value: Option<u32>) {
        match parse_u128(text) {
            Some(n) => if n <= u32::MAX as u128 {
                Some(n as u32)
            } else {
                None
            },
            None => None,
        }
    }
}

impl FromText for u64 {
    open spec fn readable(text: Seq<char>) -> bool {
        integer_within(text, false, 0, u64::MAX as int) is Some
    }

    open spec fn denotes(text: Seq<char>, value: u64) -> bool {
        integer(text, false) == Some(value as int)
    }

    fn from_text(text: &str) -> (value: Option<u64>) {
        match parse_u128(text) {
            Some(n) => if n <= u64::MAX as u128 {
                Some(n as u64)
            } else {
                None
            },
            None => None,
        }
    }
}

impl FromText for u128 {
    open spec fn readable(text: Seq<char>) -> bool {
        integer_within(text, false, 0, u128::MAX as int) is Some
    }

    open spec fn denotes(text: Seq<char>, value: u128) -> bool {
        integer(text, false) == Some(value as int)
    }

    fn from_text(text: &str) -> (value: Option<u128>) {
        parse_u128(text)
    }
}

impl FromText for usize {
    open spec fn readable(text: Seq<char>) -> bool {
        integer_within(text, false, 0, usize::MAX as int) is Some
    }

    open spec fn denotes(text: Seq<char>, value: usize) -> bool {
        integer(text, false) == Some(value as int)
    }

    fn from_text(text: &str) -> (value: Option<usize>) {
        match parse_u128(text) {
            Some(n) => if n <= usize::MAX as u128 {
                Some(n as usize)
            } else {
                None
            },
            None => None,
        }
    }
}

/// A signed integer is read from decimal digits, with `+` or `-` before them
/// or no sign; a number outside the type's range is none of its values. The
/// narrower types are read through `i128`.
impl FromText for i8 {
    open spec fn readable(text: Seq<char>) -> bool {
        integer_within(text, true, i8::MIN as int, i8::MAX as int) is Some
    }

    open spec fn denotes(text: Seq<char>, value: i8) -> bool {
        integer(text, true) == Some(value as int)
    }

    fn from_text(text: &str) -> (value: Option<i8>) {
        match parse_i128(text) {
            Some(n) => if i8::MIN as i128 <= n && n <= i8::MAX as i128 {
                Some(n as i8)
            } else {
                None
            },
            None => None,
        }
    }
}

impl FromText for i16 {
    open spec fn readable(text: Seq<char>) -> bool {
        integer_within(text, true, i16::MIN as int, i16::MAX as int) is Some
    }

    open spec fn denotes(text: Seq<char>, value: i16) -> bool {
        integer(text, true) == Some(value as int)
    }

    fn from_text(text: &str) -> (value: Option<i16>) {
        match parse_i128(text) {
            Some(n) => if i16::MIN as i128 <= n && n <= i16::MAX as i128 {
                Some(n as i16)
            } else {
                None
            },
            None => None,
        }
    }
}

impl FromText for i32 {
    open spec fn readable(text: Seq<char>) -> bool {
        integer_within(text, true, i32::MIN as int, i32::MAX as int) is Some
    }

    open spec fn denotes(text: Seq<char>, value: i32) -> bool {
        integer(text, true) == Some(value as int)
    }

    fn from_text(text: &str) -> (value: Option<i32>) {
        match parse_i128(text) {
            Some(n) => if i32::MIN as i128 <= n && n <= i32::MAX as i128 {
                Some(n as i32)
            } else {
                None
            },
            None => None,
        }
    }
}

impl FromText for i64 {
    open spec fn readable(text: Seq<char>) -> bool {
        integer_within(text, true, i64::MIN as int, i64::MAX as int) is Some
    }

    open spec fn denotes(text: Seq<char>, value: i64) -> bool {
        integer(text, true) == Some(value as int)
    }

    fn from_text(text: &str) -> (value: Option<i64>) {
        match parse_i128(text) {
            Some(n) => if i64::MIN as i128 <= n && n <= i64::MAX as i128 {
                Some(n as i64)
            } else {
                None
            },
            None => None,
        }
    }
}

impl FromText for i128 {
    open spec fn readable(text: Seq<char>) -> bool {
        integer_within(text, true, i128::MIN as int, i128::MAX as int) is Some
    }

    open spec fn denotes(text: Seq<char>, value: i128) -> bool {
        integer(text, true) == Some(value as int)
    }

    fn from_text(text: &str) -> (value: Option<i128>) {
        parse_i128(text)
    }
}

impl FromText for isize {
    open spec fn readable(text: Seq<char>) -> bool {
        integer_within(text, true, isize::MIN as int, isize::MAX as int) is Some
    }

    open spec fn denotes(text: Seq<char>, value: isize) -> bool {
        integer(text, true) == Some(value as int)
    }

    fn from_text(text: &str) -> (value: Option<isize>) {
        match parse_i128(text) {
            Some(n) => if isize::MIN as i128 <= n && n <= isize::MAX as i128 {
                Some(n as isize)
            } else {
                None
            },
            None => None,
        }
    }
}

} // verus!
