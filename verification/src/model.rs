//! The mathematical model of a source text: a sequence of characters that
//! `;` cuts into segments, each of which, once trimmed, may bind a key to a
//! value with its first `=`.

use vstd::prelude::*;

verus! {

/// Whitespace, which trimming removes: the characters that carry the Unicode
/// property `White_Space`.
pub open spec fn is_space(c: char) -> bool {
    ||| '\u{9}' <= c <= '\u{d}'
    ||| c == ' '
    ||| c == '\u{85}'
    ||| c == '\u{a0}'
    ||| c == '\u{1680}'
    ||| '\u{2000}' <= c <= '\u{200a}'
    ||| c == '\u{2028}'
    ||| c == '\u{2029}'
    ||| c == '\u{202f}'
    ||| c == '\u{205f}'
    ||| c == '\u{3000}'
}

/// The index of the first `c` in `s`, or `s.len()` where `s` holds none.
pub open spec fn first_index(s: Seq<char>, c: char) -> int
    decreases s.len(),
{
    if s.len() == 0 || s[0] == c {
        0
    } else {
        1 + first_index(s.drop_first(), c)
    }
}

/// `s` without the whitespace it begins with.
pub open spec fn trim_start(s: Seq<char>) -> Seq<char>
    decreases s.len(),
{
    if s.len() > 0 && is_space(s.first()) {
        trim_start(s.drop_first())
    } else {
        s
    }
}

/// `s` without the whitespace it ends with.
pub open spec fn trim_end(s: Seq<char>) -> Seq<char>
    decreases s.len(),
{
    if s.len() > 0 && is_space(s.last()) {
        trim_end(s.drop_last())
    } else {
        s
    }
}

/// `s` without the whitespace around it.
pub open spec fn trimmed(s: Seq<char>) -> Seq<char> {
    trim_end(trim_start(s))
}

/// The pieces between the `;` of `source`, in order. There is always at least
/// one: a source without `;` is its own single segment, the empty source too.
pub open spec fn segments(source: Seq<char>) -> Seq<Seq<char>>
    decreases source.len(),
{
    let at = first_index(source, ';');
    if 0 <= at < source.len() {
        seq![source.take(at)] + segments(source.skip(at + 1))
    } else {
        seq![source]
    }
}

/// The key and the value of a trimmed segment: what stands before its first
/// `=` and what stands after it. A segment without `=` has neither.
pub open spec fn entry(segment: Seq<char>) -> Option<(Seq<char>, Seq<char>)> {
    let at = first_index(segment, '=');
    if 0 <= at < segment.len() {
        Some((segment.take(at), segment.skip(at + 1)))
    } else {
        None
    }
}

/// The value that the raw segment gives to `key`: the segment is trimmed, and
/// binds `key` where what stands before its first `=` is `key` itself.
pub open spec fn bound_value(segment: Seq<char>, key: Seq<char>) -> Option<Seq<char>> {
    match entry(trimmed(segment)) {
        Some((k, v)) => if k == key {
            Some(v)
        } else {
            None
        },
        None => None,
    }
}

/// The value that the first of `segments` to bind `key` gives it.
pub open spec fn first_value(segments: Seq<Seq<char>>, key: Seq<char>) -> Option<Seq<char>>
    decreases segments.len(),
{
    if segments.len() == 0 {
        None
    } else {
        match bound_value(segments.first(), key) {
            Some(v) => Some(v),
            None => first_value(segments.drop_first(), key),
        }
    }
}

/// The text bound to `key` in `source`: the value of the first segment whose
/// key is `key`, whatever later segments hold.
pub open spec fn value_of(source: Seq<char>, key: Seq<char>) -> Option<Seq<char>> {
    first_value(segments(source), key)
}

/// `first_index` is the one position before which no `c` stands and at which
/// `s` either ends or holds `c`.
pub proof fn lemma_first_index(s: Seq<char>, c: char)
    ensures
        0 <= first_index(s, c) <= s.len(),
        forall|j: int| 0 <= j < first_index(s, c) ==> s[j] != c,
        first_index(s, c) < s.len() ==> s[first_index(s, c)] == c,
    decreases s.len(),
{
    if s.len() > 0 && s[0] != c {
        let rest = s.drop_first();
        lemma_first_index(rest, c);
        assert forall|j: int| 0 <= j < first_index(s, c) implies s[j] != c by {
            if j > 0 {
                assert(s[j] == rest[j - 1]);
            }
        }
    }
}

/// A position with the two properties of `lemma_first_index` is `first_index`.
pub proof fn lemma_first_index_is(s: Seq<char>, c: char, at: int)
    requires
        0 <= at <= s.len(),
        forall|j: int| 0 <= j < at ==> s[j] != c,
        at < s.len() ==> s[at] == c,
    ensures
        first_index(s, c) == at,
    decreases s.len(),
{
    if s.len() > 0 && s[0] != c {
        let rest = s.drop_first();
        assert forall|j: int| 0 <= j < at - 1 implies rest[j] != c by {
            assert(rest[j] == s[j + 1]);
        }
        lemma_first_index_is(rest, c, at - 1);
    }
}

} // verus!
