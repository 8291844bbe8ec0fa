//! The scanner: finds in a source text the value that the first segment with
//! a given key binds to it.

use crate::model::{
    first_index, first_value, is_space, lemma_first_index_is, segments, trim_end, trim_start,
    trimmed, value_of,
};
use vstd::prelude::*;
use vstd::string::StrSliceExecFns;

verus! {

/// Whether `c` is whitespace: one of the characters that trimming removes.
pub fn is_whitespace(c: char) -> (b: bool)
    ensures
        b == is_space(c),
{
    ('\u{9}' <= c && c <= '\u{d}') || c == ' ' || c == '\u{85}' || c == '\u{a0}' || c
        == '\u{1680}' || ('\u{2000}' <= c && c <= '\u{200a}') || c == '\u{2028}' || c
        == '\u{2029}' || c == '\u{202f}' || c == '\u{205f}' || c == '\u{3000}'
}

/// The characters of `text`, one by one.
fn to_chars(text: &str) -> (chars: Vec<char>)
    ensures
        chars@ == text@,
{
    let mut chars: Vec<char> = Vec::new();
    for c in it: text.chars()
        invariant
            chars@ == it.seq().take(it.index() as int),
    {
        chars.push(c);
    }
    chars
}

/// The first position in `from..to` that holds `c`, or `to` where none does.
fn find_char(chars: &[char], from: usize, to: usize, c: char) -> (at: usize)
    requires
        from <= to <= chars.len(),
    ensures
        from <= at <= to,
        at - from == first_index(chars@.subrange(from as int, to as int), c),
{
    let mut at: usize = from;
    while at < to && chars[at] != c
        invariant
            from <= at <= to <= chars.len(),
            forall|j: int| from <= j < at ==> chars[j] != c,
        decreases to - at,
    {
        at += 1;
    }
    proof {
        lemma_first_index_is(chars@.subrange(from as int, to as int), c, at - from);
    }
    at
}

/// The bounds of what is left of `from..to` once the whitespace around it is
/// gone.
fn trim_range(chars: &[char], from: usize, to: usize) -> (bounds: (usize, usize))
    requires
        from <= to <= chars.len(),
    ensures
        from <= bounds.0 <= bounds.1 <= to,
        chars@.subrange(bounds.0 as int, bounds.1 as int) == trimmed(
            chars@.subrange(from as int, to as int),
        ),
{
    let mut start: usize = from;
    while start < to && is_whitespace(chars[start])
        invariant
            from <= start <= to <= chars.len(),
            trim_start(chars@.subrange(from as int, to as int)) == trim_start(
                chars@.subrange(start as int, to as int),
            ),
        decreases to - start,
    {
        assert(chars@.subrange(start as int, to as int).drop_first() == chars@.subrange(
            start + 1,
            to as int,
        ));
        start += 1;
    }
    let mut end: usize = to;
    while start < end && is_whitespace(chars[end - 1])
        invariant
            start <= end <= to <= chars.len(),
            trim_end(chars@.subrange(start as int, to as int)) == trim_end(
                chars@.subrange(start as int, end as int),
            ),
        decreases end - start,
    {
        assert(chars@.subrange(start as int, end as int).drop_last() == chars@.subrange(
            start as int,
            end - 1,
        ));
        end -= 1;
    }
    (start, end)
}

/// Whether `chars[from..to]` is `key`, character for character.
fn same_text(chars: &[char], from: usize, to: usize, key: &[char]) -> (same: bool)
    requires
        from <= to <= chars.len(),
    ensures
        same == (chars@.subrange(from as int, to as int) == key@),
{
    if to - from != key.len() {
        return false;
    }
    let mut i: usize = 0;
    while i < key.len()
        invariant
            from <= to <= chars.len(),
            to - from == key.len(),
            i <= key.len(),
            forall|j: int| 0 <= j < i ==> chars[from + j] == key[j],
        decreases key.len() - i,
    {
        if chars[from + i] != key[i] {
            return false;
        }
        i += 1;
    }
    assert(chars@.subrange(from as int, to as int) =~= key@);
    true
}

/// Whether `a` and `b` are the same text.
pub(crate) fn same_str(a: &str, b: &str) -> (same: bool)
    ensures
        same == (a@ == b@),
{
    let left = to_chars(a);
    let right = to_chars(b);
    assert(left@.subrange(0, left@.len() as int) == left@);
    same_text(left.as_slice(), 0, left.len(), right.as_slice())
}

/// The bounds in `chars` of the value bound to `key`, if a segment binds one.
fn locate(chars: &[char], key: &[char]) -> (found: Option<(usize, usize)>)
    ensures
        match found {
            Some((from, to)) => from <= to <= chars.len() && value_of(chars@, key@) == Some(
                chars@.subrange(from as int, to as int),
            ),
            None => value_of(chars@, key@) is None,
        },
{
    let n: usize = chars.len();
    let mut start: usize = 0;
    assert(chars@.skip(0) == chars@);
    loop
        invariant
            start <= n == chars.len(),
            value_of(chars@, key@) == first_value(segments(chars@.skip(start as int)), key@),
        decreases n - start,
    {
        let end: usize = find_char(chars, start, n, ';');
        let (from, to): (usize, usize) = trim_range(chars, start, end);
        let eq: usize = find_char(chars, from, to, '=');
        let ghost rest = chars@.skip(start as int);
        let ghost segment = chars@.subrange(start as int, end as int);
        let ghost inner = chars@.subrange(from as int, to as int);
        proof {
            assert(segments(rest).first() == segment);
            assert(inner.take(eq - from) == chars@.subrange(from as int, eq as int));
        }
        if eq < to && same_text(chars, from, eq, key) {
            return Some((eq + 1, to));
        }
        if end == n {
            proof {
                assert(first_value(segments(rest).drop_first(), key@) is None);
            }
            return None;
        }
        proof {
            assert(rest.skip(end - start + 1) == chars@.skip(end + 1));
            assert(segments(rest).drop_first() == segments(chars@.skip(end + 1)));
        }
        start = end + 1;
    }
}

/// The text that `target` binds to `key`, as it stands in `target`.
///
/// `target` is cut at each `;`, every piece is trimmed of the whitespace
/// around it, and the first piece that reads `key`, `=` and a value (the key
/// ending at the piece's first `=`) gives its value. Pieces after it are not
/// looked at, and a piece without `=` binds nothing.
pub fn find_value<'a>(target: &'a str, key: &str) -> (found: Option<&'a str>)
    ensures
        match found {
            Some(text) => value_of(target@, key@) == Some(text@),
            None => value_of(target@, key@) is None,
        },
{
    let chars = to_chars(target);
    let wanted = to_chars(key);
    match locate(chars.as_slice(), wanted.as_slice()) {
        Some((from, to)) => Some(target.substring_char(from, to)),
        None => None,
    }
}

} // verus!
