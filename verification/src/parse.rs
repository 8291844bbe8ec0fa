//! Typed lookup: the value bound to a key, read as the type the caller asks
//! for.

use crate::from_text::{read_as, FromText};
use crate::model::value_of;
use crate::scan::find_value;
use vstd::prelude::*;

verus! {

/// The value that `target` binds to `key`, as `parse` reads it: for a type
/// that is no `FromText`, or a reading of the caller's own.
///
/// The first segment of `target` that binds `key` decides. `parse` is called
/// once, on that segment's value, and its answer is the result as it stands:
/// where `parse` turns the value down the result is absent, and no later
/// segment is tried. Where no segment binds `key`, `parse` is not called and
/// the result is absent.
pub fn parse_str_with<T, F>(target: &str, key: &str, parse: F) -> (value: Option<T>) where
    F: FnOnce(&str) -> Option<T>,

    requires
        forall|text: &str| value_of(target@, key@) == Some(text@) ==> parse.requires((text,)),
    ensures
        match value_of(target@, key@) {
            Some(bound) => exists|text: &str| text@ == bound && parse.ensures((text,), value),
            None => value is None,
        },
{
    match find_value(target, key) {
        Some(text) => parse(text),
        None => None,
    }
}

/// Whether `value` is what `source` gives for `key`, read as a `T`: what the
/// text bound to `key` reads as, and nothing where no text is bound to it.
pub open spec fn extracts<T: FromText>(source: Seq<char>, key: Seq<char>, value: Option<T>) -> bool {
    match value_of(source, key) {
        Some(bound) => read_as(bound, value),
        None => value is None,
    }
}

/// The value that `target` binds to `key`, read as a `T`.
///
/// The first segment of `target` that binds `key` decides: the result is what
/// its value reads as, and absent where the value is no `T`, whatever later
/// segments bind to `key`. Where no segment binds `key` the result is absent.
pub fn parse_str<T: FromText>(target: &str, key: &str) -> (value: Option<T>)
    ensures
        extracts(target@, key@, value),
{
    match find_value(target, key) {
        Some(text) => T::from_text(text),
        None => None,
    }
}

} // verus!
