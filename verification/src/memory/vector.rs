//! Normalised memory text and the stable hash that buckets text features.
use vstd::prelude::*;
use vstd::wrapping::u64_specs;

use crate::text::{
    ascii_lower, collapse_ws, collapse_ws_chars, is_alphanumeric_char, is_whitespace_char, is_ws,
    join, lemma_join_alnum_words, lemma_join_keeps, lemma_words_alnum, lemma_words_keep,
    lemma_words_of_join, lowercase_chars, plain_word, single_spaced_alnum, spec_is_alphanumeric,
    spec_to_lowercase, string_of, word_of, words,
};

verus! {

/// A character kept as it is where it is alphanumeric or white space, and
/// otherwise read as a space.
pub open spec fn word_char_or_space(c: char) -> char {
    if spec_is_alphanumeric(c) || is_ws(c) {
        c
    } else {
        ' '
    }
}

/// Every character that is neither alphanumeric nor white space replaced by a space.
pub open spec fn punctuation_to_spaces(s: Seq<char>) -> Seq<char> {
    s.map_values(|c: char| word_char_or_space(c))
}

pub fn punctuation_to_spaces_chars(v: &Vec<char>) -> (r: Vec<char>)
    ensures
        r@ == punctuation_to_spaces(v@),
{
    let mut r: Vec<char> = Vec::new();
    let mut i: usize = 0;
    while i < v.len()
        invariant
            i <= v.len(),
            r@ == punctuation_to_spaces(v@.take(i as int)),
        decreases v.len() - i,
    {
        let c = v[i];
        let k = if is_alphanumeric_char(c) || is_whitespace_char(c) {
            c
        } else {
            ' '
        };
        r.push(k);
        i = i + 1;
        assert(r@ =~= punctuation_to_spaces(v@.take(i as int)));
    }
    assert(v@.take(v.len() as int) =~= v@);
    r
}

/// Lower-cased, punctuation read as spaces, white space collapsed.
pub open spec fn spec_normalize_memory_text(value: Seq<char>) -> Seq<char> {
    collapse_ws(punctuation_to_spaces(spec_to_lowercase(value)))
}

pub fn normalize_memory_text(value: &str) -> (r: String)
    ensures
        r@ == spec_normalize_memory_text(value@),
{
    let lower = lowercase_chars(value);
    let mapped = punctuation_to_spaces_chars(&lower);
    let collapsed = collapse_ws_chars(&mapped);
    string_of(&collapsed)
}

/// Normalised memory text is single-spaced words of letters and digits: every
/// character is a space or alphanumeric, no space stands at either end, and no
/// two spaces stand side by side.
pub proof fn lemma_normalized_memory_text_shape(value: Seq<char>)
    ensures
        single_spaced_alnum(spec_normalize_memory_text(value)),
{
    let p = punctuation_to_spaces(spec_to_lowercase(value));
    assert(is_ws(' '));
    assert forall|k: int| 0 <= k < p.len() implies spec_is_alphanumeric(#[trigger] p[k]) || is_ws(p[k]) by {
    }
    lemma_words_alnum(p);
    lemma_join_alnum_words(words(p));
}

/// A character normalised ASCII text keeps: alphanumeric, ASCII, and not an
/// upper-case letter.
pub open spec fn lower_ascii_alnum(c: char) -> bool {
    spec_is_alphanumeric(c) && (c as u32) < 128 && !('A' <= c && c <= 'Z')
}

pub open spec fn is_ascii_text(t: Seq<char>) -> bool {
    forall|i: int| 0 <= i < t.len() ==> (#[trigger] t[i] as u32) < 128
}

/// Lower-casing as its documentation describes it on ASCII text: each
/// character lowered on its own, `A`..`Z` to `a`..`z`, the rest unchanged.
pub open spec fn ascii_lowercasing_as_documented() -> bool {
    forall|t: Seq<char>|
        is_ascii_text(t) ==> #[trigger] spec_to_lowercase(t) == t.map_values(|c: char| ascii_lower(c))
}

/// Where lower-casing acts on ASCII text as its documentation describes,
/// normalising ASCII memory text a second time changes nothing.
pub proof fn lemma_normalize_ascii_idempotent(value: Seq<char>)
    requires
        ascii_lowercasing_as_documented(),
        is_ascii_text(value),
    ensures
        spec_normalize_memory_text(spec_normalize_memory_text(value)) == spec_normalize_memory_text(value),
{
    let lower = spec_to_lowercase(value);
    assert(lower == value.map_values(|c: char| ascii_lower(c)));
    let p0 = punctuation_to_spaces(lower);
    let q = |c: char| lower_ascii_alnum(c);
    assert(is_ws(' '));
    assert forall|k: int| 0 <= k < p0.len() implies q(#[trigger] p0[k]) || is_ws(p0[k]) by {
        assert(lower[k] == ascii_lower(value[k]));
        assert((value[k] as u32) < 128);
    }
    lemma_words_keep(p0, q);
    let w = words(p0);
    let r = join(w, seq![' ']);
    assert(r == spec_normalize_memory_text(value));
    lemma_join_keeps(w, q);
    assert forall|i: int| 0 <= i < r.len() implies (#[trigger] r[i] as u32) < 128 by {
        assert(r[i] == ' ' || q(r[i]));
    }
    assert(spec_to_lowercase(r) == r.map_values(|c: char| ascii_lower(c)));
    assert forall|i: int| 0 <= i < r.len() implies ascii_lower(#[trigger] r[i]) == r[i] by {
        assert(r[i] == ' ' || q(r[i]));
    }
    assert(r.map_values(|c: char| ascii_lower(c)) =~= r);
    assert forall|i: int| 0 <= i < r.len() implies word_char_or_space(#[trigger] r[i]) == r[i] by {
        assert(r[i] == ' ' || q(r[i]));
    }
    assert(punctuation_to_spaces(r) =~= r);
    assert forall|i: int| 0 <= i < w.len() implies plain_word(#[trigger] w[i]) by {
        assert(word_of(w[i], q));
    }
    lemma_words_of_join(w);
}

/// The 64-bit FNV-1a hash of a byte sequence.
pub open spec fn fnv1a(bytes: Seq<u8>) -> u64
    decreases bytes.len(),
{
    if bytes.len() == 0 {
        0xcbf29ce484222325u64
    } else {
        u64_specs::wrapping_mul(
            fnv1a(bytes.drop_last()) ^ (bytes.last() as u64),
            0x100000001b3u64,
        )
    }
}

pub fn stable_hash(input: &[u8]) -> (r: u64)
    ensures
        r == fnv1a(input@),
{
    let mut hash: u64 = 0xcbf29ce484222325u64;
    let mut i: usize = 0;
    while i < input.len()
        invariant
            i <= input.len(),
            hash == fnv1a(input@.take(i as int)),
        decreases input.len() - i,
    {
        let b = input[i];
        assert(input@.take(i + 1).drop_last() =~= input@.take(i as int));
        assert(input@.take(i + 1).last() == b);
        hash = (hash ^ (b as u64)).wrapping_mul(0x100000001b3u64);
        i = i + 1;
    }
    assert(input@.take(input.len() as int) =~= input@);
    hash
}

/// Where a hashed feature lands in a vector of `dimensions` slots, and
/// whether it is added (`true`) or subtracted: the slot is the hash modulo
/// the dimension count, and the sign is positive exactly when the hash is even.
pub fn feature_slot(feature: &[u8], dimensions: usize) -> (r: (usize, bool))
    requires
        dimensions > 0,
    ensures
        r.0 < dimensions,
        r.0 == fnv1a(feature@) % (dimensions as u64),
        r.1 == (fnv1a(feature@) % 2 == 0),
{
    let hash = stable_hash(feature);
    let d: u64 = dimensions as u64;
    let slot: u64 = hash % d;
    (slot as usize, hash % 2 == 0)
}

} // verus!
