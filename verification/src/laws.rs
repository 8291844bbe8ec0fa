//! What holds of the model, and of what is read from it, for every source
//! and key.

use crate::from_text::{read_as, FromText};
use crate::model::{
    bound_value, entry, first_index, first_value, is_space, lemma_first_index,
    lemma_first_index_is, segments, trim_end, trim_start, trimmed, value_of,
};
use crate::parse::extracts;
use vstd::prelude::*;

verus! {

/// Whether every character of `s` is whitespace.
pub open spec fn all_space(s: Seq<char>) -> bool {
    forall|i: int| 0 <= i < s.len() ==> is_space(#[trigger] s[i])
}

/// `trim_start` keeps a suffix of `s` that does not begin with whitespace,
/// and drops whitespace only.
pub proof fn lemma_trim_start(s: Seq<char>)
    ensures
        trim_start(s).len() <= s.len(),
        trim_start(s) == s.skip(s.len() - trim_start(s).len()),
        all_space(s.take(s.len() - trim_start(s).len())),
        trim_start(s).len() > 0 ==> !is_space(trim_start(s).first()),
    decreases s.len(),
{
    if s.len() > 0 && is_space(s.first()) {
        let rest = s.drop_first();
        lemma_trim_start(rest);
        let kept = trim_start(s).len();
        assert forall|i: int| 0 <= i < s.len() - kept implies is_space(
            #[trigger] s.take(s.len() - kept)[i],
        ) by {
            if i > 0 {
                assert(s[i] == rest.take(rest.len() - kept)[i - 1]);
            }
        }
    }
}

/// `trim_end` keeps a prefix of `s` that does not end with whitespace, and
/// drops whitespace only.
pub proof fn lemma_trim_end(s: Seq<char>)
    ensures
        trim_end(s).len() <= s.len(),
        trim_end(s) == s.take(trim_end(s).len() as int),
        all_space(s.skip(trim_end(s).len() as int)),
        trim_end(s).len() > 0 ==> !is_space(trim_end(s).last()),
    decreases s.len(),
{
    if s.len() > 0 && is_space(s.last()) {
        let rest = s.drop_last();
        lemma_trim_end(rest);
        let kept = trim_end(s).len() as int;
        assert forall|i: int| 0 <= i < s.len() - kept implies is_space(
            #[trigger] s.skip(kept)[i],
        ) by {
            if i < s.len() - kept - 1 {
                assert(s[kept + i] == rest.skip(kept)[i]);
            }
        }
    }
}

/// Trimming cuts a piece out of `s`: what it keeps neither begins nor ends
/// with whitespace, and all it drops is whitespace.
pub proof fn law_trimmed_is_the_core(s: Seq<char>)
    ensures
        exists|from: int, to: int|
            {
                &&& 0 <= from <= to <= s.len()
                &&& #[trigger] s.subrange(from, to) == trimmed(s)
                &&& all_space(s.take(from))
                &&& all_space(s.skip(to))
            },
        trimmed(s).len() > 0 ==> !is_space(trimmed(s).first()) && !is_space(trimmed(s).last()),
{
    let inner = trim_start(s);
    lemma_trim_start(s);
    lemma_trim_end(inner);
    let from = s.len() - inner.len();
    let to = from + trimmed(s).len();
    assert(s.subrange(from, to) == trimmed(s));
    assert forall|i: int| 0 <= i < s.len() - to implies is_space(#[trigger] s.skip(to)[i]) by {
        assert(s.skip(to)[i] == inner.skip(trimmed(s).len() as int)[i]);
    }
}

/// Whitespace before a text does not change what `trim_start` keeps of it.
proof fn lemma_trim_start_skips(before: Seq<char>, s: Seq<char>)
    requires
        all_space(before),
    ensures
        trim_start(before + s) == trim_start(s),
    decreases before.len(),
{
    if before.len() > 0 {
        assert((before + s).drop_first() == before.drop_first() + s);
        assert forall|i: int| 0 <= i < before.drop_first().len() implies is_space(
            #[trigger] before.drop_first()[i],
        ) by {
            assert(before.drop_first()[i] == before[i + 1]);
        }
        lemma_trim_start_skips(before.drop_first(), s);
    }
}

/// Whitespace after a text does not change what `trim_end` keeps of it.
proof fn lemma_trim_end_skips(s: Seq<char>, after: Seq<char>)
    requires
        all_space(after),
    ensures
        trim_end(s + after) == trim_end(s),
    decreases after.len(),
{
    if after.len() > 0 {
        assert((s + after).drop_last() == s + after.drop_last());
        assert forall|i: int| 0 <= i < after.drop_last().len() implies is_space(
            #[trigger] after.drop_last()[i],
        ) by {
            assert(after.drop_last()[i] == after[i]);
        }
        lemma_trim_end_skips(s, after.drop_last());
    }
}

/// What `trim_start` keeps of a text that goes on after `s` is what it keeps of
/// `s`, and then the rest, unless `s` is whitespace throughout.
proof fn lemma_trim_start_of_longer(s: Seq<char>, after: Seq<char>)
    requires
        trim_start(s).len() > 0,
    ensures
        trim_start(s + after) == trim_start(s) + after,
    decreases s.len(),
{
    if is_space(s.first()) {
        assert((s + after).drop_first() == s.drop_first() + after);
        lemma_trim_start_of_longer(s.drop_first(), after);
    }
}

/// Whitespace around a text is ignored: trimming the text with whitespace
/// before and after it gives what trimming the text alone gives.
pub proof fn law_padding_is_ignored(before: Seq<char>, s: Seq<char>, after: Seq<char>)
    requires
        all_space(before),
        all_space(after),
    ensures
        trimmed(before + s + after) == trimmed(s),
{
    assert(before + s + after == before + (s + after));
    lemma_trim_start_skips(before, s + after);
    if trim_start(s).len() > 0 {
        lemma_trim_start_of_longer(s, after);
        lemma_trim_end_skips(trim_start(s), after);
    } else {
        lemma_trim_start(s);
        assert(s.take(s.len() as int) == s);
        assert forall|i: int| 0 <= i < (s + after).len() implies is_space(
            #[trigger] (s + after)[i],
        ) by {
            if i >= s.len() {
                assert((s + after)[i] == after[i - s.len()]);
            }
        }
        lemma_trim_start(s + after);
        assert(trim_start(s + after).len() == 0);
    }
}

/// Whitespace around a segment does not change what the segment binds.
pub proof fn law_segment_padding_is_ignored(
    before: Seq<char>,
    segment: Seq<char>,
    after: Seq<char>,
    key: Seq<char>,
)
    requires
        all_space(before),
        all_space(after),
    ensures
        bound_value(before + segment + after, key) == bound_value(segment, key),
{
    law_padding_is_ignored(before, segment, after);
}

/// The pieces of a text put together again, with a `;` between each two.
pub open spec fn joined(pieces: Seq<Seq<char>>) -> Seq<char>
    decreases pieces.len(),
{
    if pieces.len() == 0 {
        Seq::empty()
    } else if pieces.len() == 1 {
        pieces.first()
    } else {
        pieces.first() + seq![';'] + joined(pieces.drop_first())
    }
}

/// The segments of a source are what stands between its `;`: there is at
/// least one, none holds a `;`, and with a `;` between each two they are the
/// source again.
pub proof fn law_segments_split_at_semicolons(source: Seq<char>)
    ensures
        segments(source).len() >= 1,
        forall|i: int|
            0 <= i < segments(source).len() ==> !(#[trigger] segments(source)[i]).contains(';'),
        joined(segments(source)) == source,
    decreases source.len(),
{
    let at = first_index(source, ';');
    let all = segments(source);
    lemma_first_index(source, ';');
    if at < source.len() {
        let rest = source.skip(at + 1);
        law_segments_split_at_semicolons(rest);
        assert(all.drop_first() == segments(rest));
        assert forall|i: int| 0 <= i < all.len() implies !(#[trigger] all[i]).contains(';') by {
            if i > 0 {
                assert(all[i] == segments(rest)[i - 1]);
            }
        }
    }
}

/// A segment with `=` is its key, the `=`, and its value, and the key is all
/// that stands before the first `=`. A segment without `=` has no entry.
pub proof fn law_entry_splits_at_first_equals(segment: Seq<char>)
    ensures
        match entry(segment) {
            Some((key, value)) => segment == key + seq!['='] + value && !key.contains('='),
            None => !segment.contains('='),
        },
{
    lemma_first_index(segment, '=');
    let at = first_index(segment, '=');
    if at < segment.len() {
        assert(segment == segment.take(at) + seq!['='] + segment.skip(at + 1));
    }
}

/// A segment binds one key at most, the text before its first `=` as it
/// stands: a key that differs from it, be it in the case of one letter, is not
/// bound.
pub proof fn law_segment_binds_one_key(segment: Seq<char>, key: Seq<char>, other: Seq<char>)
    requires
        bound_value(segment, key) is Some,
        other != key,
    ensures
        bound_value(segment, other) is None,
{
}

/// A segment without `=` binds no key.
pub proof fn law_bare_segment_binds_nothing(segment: Seq<char>, key: Seq<char>)
    requires
        !segment.contains('='),
    ensures
        bound_value(segment, key) is None,
{
    let inner = trim_start(segment);
    let core = trimmed(segment);
    lemma_trim_start(segment);
    lemma_trim_end(inner);
    lemma_first_index(core, '=');
    let at = first_index(core, '=');
    if at < core.len() {
        assert(core[at] == segment[segment.len() - inner.len() + at]);
    }
}

/// A trimmed segment that reads `key`, `=`, `value` has the entry `key`,
/// `value`, as long as `key` itself holds no `=`.
pub proof fn lemma_entry_of_pair(key: Seq<char>, value: Seq<char>)
    requires
        !key.contains('='),
    ensures
        entry(key + seq!['='] + value) == Some((key, value)),
{
    let text = key + seq!['='] + value;
    assert forall|j: int| 0 <= j < key.len() implies text[j] != '=' by {
        assert(text[j] == key[j]);
    }
    lemma_first_index_is(text, '=', key.len() as int);
    assert(text.take(key.len() as int) == key);
    assert(text.skip(key.len() as int + 1) == value);
}

/// Among segments of which none before the `at`-th binds `key`, the value of
/// `key` is what the `at`-th and those after it give.
proof fn lemma_first_value_skips(segments: Seq<Seq<char>>, key: Seq<char>, at: int)
    requires
        0 <= at <= segments.len(),
        forall|j: int| 0 <= j < at ==> bound_value(#[trigger] segments[j], key) is None,
    ensures
        first_value(segments, key) == first_value(segments.skip(at), key),
    decreases at,
{
    if at == 0 {
        assert(segments.skip(0) == segments);
    } else {
        let rest = segments.drop_first();
        assert forall|j: int| 0 <= j < at - 1 implies bound_value(
            #[trigger] rest[j],
            key,
        ) is None by {
            assert(rest[j] == segments[j + 1]);
        }
        lemma_first_value_skips(rest, key, at - 1);
        assert(rest.skip(at - 1) == segments.skip(at));
    }
}

/// The first binding wins. Where a segment of `source`, trimmed, reads `key`,
/// `=`, `value`, and no segment before it binds `key`, the value of `key` in
/// `source` is `value`, whatever the segments after it hold. `key` is one
/// without `=`: a key that holds one is never what stands before a segment's
/// first `=`.
pub proof fn law_first_binding_wins(
    source: Seq<char>,
    key: Seq<char>,
    value: Seq<char>,
    at: int,
)
    requires
        !key.contains('='),
        0 <= at < segments(source).len(),
        trimmed(segments(source)[at]) == key + seq!['='] + value,
        forall|j: int| 0 <= j < at ==> bound_value(#[trigger] segments(source)[j], key) is None,
    ensures
        value_of(source, key) == Some(value),
{
    let all = segments(source);
    lemma_first_value_skips(all, key, at);
    lemma_entry_of_pair(key, value);
}

/// Where one of `segments` binds `key`, `key` has a value.
proof fn lemma_binding_gives_value(segments: Seq<Seq<char>>, key: Seq<char>)
    requires
        exists|i: int| 0 <= i < segments.len() && bound_value(#[trigger] segments[i], key) is Some,
    ensures
        first_value(segments, key) is Some,
    decreases segments.len(),
{
    let i = choose|i: int| 0 <= i < segments.len() && bound_value(#[trigger] segments[i], key) is Some;
    if bound_value(segments.first(), key) is None {
        let rest = segments.drop_first();
        assert(rest[i - 1] == segments[i]);
        lemma_binding_gives_value(rest, key);
    }
}

/// The value of `key` is absent exactly where no segment binds `key`: where
/// `key` is not what stands before the first `=` of any trimmed segment.
pub proof fn law_absent_without_binding(source: Seq<char>, key: Seq<char>)
    ensures
        value_of(source, key) is None <==> forall|i: int|
            0 <= i < segments(source).len() ==> bound_value(
                #[trigger] segments(source)[i],
                key,
            ) is None,
{
    let all = segments(source);
    if forall|i: int| 0 <= i < all.len() ==> bound_value(#[trigger] all[i], key) is None {
        lemma_first_value_skips(all, key, all.len() as int);
    } else {
        lemma_binding_gives_value(all, key);
    }
}

/// The empty source binds nothing, whatever the key.
pub proof fn law_empty_source_is_absent(key: Seq<char>)
    ensures
        value_of(Seq::<char>::empty(), key) is None,
{
    let source = Seq::<char>::empty();
    assert(first_value(segments(source).drop_first(), key) is None);
}

/// What is read for a key is read from its first binding. Where a segment of
/// `source`, trimmed, reads `key`, `=`, `text`, and no segment before it binds
/// `key`, the value that `source` gives for `key` is what `text` reads as: a
/// value that `text` writes, and nothing where `text` writes no `T`, even if a
/// later segment binds `key` to a text that does. `key` is one without `=`.
pub proof fn law_first_binding_is_read<T: FromText>(
    source: Seq<char>,
    key: Seq<char>,
    text: Seq<char>,
    at: int,
    value: Option<T>,
)
    requires
        !key.contains('='),
        0 <= at < segments(source).len(),
        trimmed(segments(source)[at]) == key + seq!['='] + text,
        forall|j: int| 0 <= j < at ==> bound_value(#[trigger] segments(source)[j], key) is None,
        extracts(source, key, value),
    ensures
        read_as(text, value),
{
    law_first_binding_wins(source, key, text, at);
}

/// The first binding decides alone. Where the text of the first segment
/// that binds `key` writes no `T`, nothing is read for `key`: segments after
/// it are not tried.
pub proof fn law_unreadable_first_binding_is_absent<T: FromText>(
    source: Seq<char>,
    key: Seq<char>,
    text: Seq<char>,
    at: int,
    value: Option<T>,
)
    requires
        !key.contains('='),
        0 <= at < segments(source).len(),
        trimmed(segments(source)[at]) == key + seq!['='] + text,
        forall|j: int| 0 <= j < at ==> bound_value(#[trigger] segments(source)[j], key) is None,
        !T::readable(text),
        extracts(source, key, value),
    ensures
        value is None,
{
    law_first_binding_is_read(source, key, text, at, value);
}

/// Nothing is read for a key that no segment binds.
pub proof fn law_unbound_key_is_absent<T: FromText>(
    source: Seq<char>,
    key: Seq<char>,
    value: Option<T>,
)
    requires
        forall|i: int|
            0 <= i < segments(source).len() ==> bound_value(
                #[trigger] segments(source)[i],
                key,
            ) is None,
        extracts(source, key, value),
    ensures
        value is None,
{
    law_absent_without_binding(source, key);
}

/// Nothing is read from the empty source, whatever the key.
pub proof fn law_empty_source_reads_nothing<T: FromText>(key: Seq<char>, value: Option<T>)
    requires
        extracts(Seq::<char>::empty(), key, value),
    ensures
        value is None,
{
    law_empty_source_is_absent(key);
}

} // verus!
