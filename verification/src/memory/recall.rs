//! The rules that turn a user's words into thread keys, topic labels, entity
//! anchors, open loops and interaction constraints, and that merge them into a
//! working-memory snapshot.
use vstd::prelude::*;
use vstd::string::StringSliceAdditionalSpecFns;
use vstd::utf8::encode_utf8;

use crate::memory::types::{
    EntityAnchor, EntityAnchorView, InteractionConstraint, InteractionConstraintView, OpenLoop,
    OpenLoopView, WorkingThreadStatus,
};
use crate::memory::vector::{punctuation_to_spaces, punctuation_to_spaces_chars};
use crate::text::{
    append_chars, append_str, chars_eq, chars_eq_str, chars_of, compact, compact_chars,
    compact_text, contains, contains_str, ends_with_char, is_ws, join, join_chars,
    lowercase_chars, seqs_of, spec_to_lowercase, split_words, string_of, strings_of_parts,
    strs_view, take_parts, trim_end_set, trim_end_set_chars, words, CharSet,
};

verus! {

/// Words too common to say what a turn is about.
pub open spec fn spec_is_stop_word(token: Seq<char>) -> bool {
    token == "the"@ || token == "and"@ || token == "for"@ || token == "with"@ || token == "that"@
        || token == "this"@ || token == "from"@ || token == "have"@ || token == "what"@ || token
        == "when"@ || token == "where"@ || token == "which"@ || token == "about"@ || token
        == "your"@ || token == "my"@ || token == "our"@
}

pub fn is_stop_word(token: &str) -> (r: bool)
    ensures
        r == spec_is_stop_word(token@),
{
    let t = chars_of(token);
    chars_eq_str(&t, "the") || chars_eq_str(&t, "and") || chars_eq_str(&t, "for")
        || chars_eq_str(&t, "with") || chars_eq_str(&t, "that") || chars_eq_str(&t, "this")
        || chars_eq_str(&t, "from") || chars_eq_str(&t, "have") || chars_eq_str(&t, "what")
        || chars_eq_str(&t, "when") || chars_eq_str(&t, "where") || chars_eq_str(&t, "which")
        || chars_eq_str(&t, "about") || chars_eq_str(&t, "your") || chars_eq_str(&t, "my")
        || chars_eq_str(&t, "our")
}

/// A word counts where it is at least three UTF-8 bytes long and no stop word.
pub open spec fn is_significant(word: Seq<char>) -> bool {
    encode_utf8(word).len() >= 3 && !spec_is_stop_word(word)
}

/// The words of the lower-cased text, punctuation read as spaces, that count.
pub open spec fn spec_significant_tokens(text: Seq<char>) -> Seq<Seq<char>> {
    keep_significant(words(punctuation_to_spaces(spec_to_lowercase(text))))
}

/// The words that count, in order.
pub open spec fn keep_significant(ws: Seq<Seq<char>>) -> Seq<Seq<char>>
    decreases ws.len(),
{
    if ws.len() == 0 {
        ws
    } else {
        let rest = keep_significant(ws.drop_last());
        if is_significant(ws.last()) {
            rest.push(ws.last())
        } else {
            rest
        }
    }
}

fn significant_token_parts(text: &str) -> (r: Vec<Vec<char>>)
    ensures
        seqs_of(r@) == spec_significant_tokens(text@),
{
    let lower = lowercase_chars(text);
    let mapped = punctuation_to_spaces_chars(&lower);
    let ws = split_words(&mapped);
    let ghost all = words(punctuation_to_spaces(spec_to_lowercase(text@)));
    let mut out: Vec<Vec<char>> = Vec::new();
    let mut i: usize = 0;
    while i < ws.len()
        invariant
            i <= ws.len(),
            seqs_of(ws@) == all,
            seqs_of(out@) == keep_significant(all.take(i as int)),
        decreases ws.len() - i,
    {
        let s = string_of(&ws[i]);
        let bytes = s.as_str().as_bytes();
        assert(all[i as int] == ws@[i as int]@);
        assert(all.take(i + 1).drop_last() =~= all.take(i as int));
        assert(all.take(i + 1).last() == all[i as int]);
        let ghost prev = seqs_of(out@);
        let keep = bytes.len() >= 3 && !is_stop_word(s.as_str());
        assert(keep == is_significant(all[i as int]));
        if keep {
            let w = crate::text::copy_chars(&ws[i]);
            out.push(w);
            assert(seqs_of(out@) =~= prev.push(all[i as int]));
        } else {
            assert(seqs_of(out@) =~= prev);
        }
        assert(seqs_of(out@) == keep_significant(all.take(i + 1)));
        i = i + 1;
    }
    assert(all.take(ws.len() as int) =~= all);
    out
}

pub fn significant_tokens(text: &str) -> (r: Vec<String>)
    ensures
        strs_view(r@) == spec_significant_tokens(text@),
{
    let parts = significant_token_parts(text);
    strings_of_parts(&parts)
}

/// The first `n` items, or all where there are fewer.
pub open spec fn take_at_most<A>(s: Seq<A>, n: int) -> Seq<A> {
    if n < s.len() {
        s.take(n)
    } else {
        s
    }
}

/// `thread:` and the first four significant tokens joined by `_`, or
/// `thread:general` where there are none.
pub open spec fn spec_derive_thread_key(text: Seq<char>) -> Seq<char> {
    let tokens = spec_significant_tokens(text);
    if tokens.len() == 0 {
        "thread:general"@
    } else {
        "thread:"@ + join(take_at_most(tokens, 4), "_"@)
    }
}

pub fn derive_thread_key(text: &str) -> (r: String)
    ensures
        r@ == spec_derive_thread_key(text@),
{
    let tokens = significant_token_parts(text);
    if tokens.len() == 0 {
        return "thread:general".to_owned();
    }
    let first = take_parts(&tokens, 4);
    let sep = chars_of("_");
    let joined = join_chars(&first, &sep);
    let mut out: Vec<char> = Vec::new();
    append_str(&mut out, "thread:");
    append_chars(&mut out, &joined);
    assert(seqs_of(tokens@).take(4) == take_at_most(seqs_of(tokens@), 4) || tokens.len() <= 4);
    proof {
        if tokens.len() <= 4 {
            assert(seqs_of(tokens@).take(tokens.len() as int) =~= seqs_of(tokens@));
        }
    }
    string_of(&out)
}

/// The first six significant tokens of `primary`, shortened to 48 characters; where
/// there are none, `fallback` shortened to 48 characters.
pub open spec fn spec_derive_topic_label(primary: Seq<char>, fallback: Seq<char>) -> Seq<char> {
    let label = join(take_at_most(spec_significant_tokens(primary), 6), " "@);
    if label.len() == 0 {
        compact(fallback, 48)
    } else {
        compact(label, 48)
    }
}

pub fn derive_topic_label(primary: &str, fallback: &str) -> (r: String)
    ensures
        r@ == spec_derive_topic_label(primary@, fallback@),
{
    let tokens = significant_token_parts(primary);
    let first = take_parts(&tokens, 6);
    proof {
        if tokens.len() <= 6 {
            assert(seqs_of(tokens@).take(tokens.len() as int) =~= seqs_of(tokens@));
        }
    }
    let sep = chars_of(" ");
    let label = join_chars(&first, &sep);
    if label.len() == 0 {
        compact_text(fallback, 48)
    } else {
        let c = compact_chars(&label, 48);
        string_of(&c)
    }
}

/// `target` followed by each value not already present, in order, each once.
pub open spec fn merged_unique(target: Seq<i64>, values: Seq<i64>) -> Seq<i64>
    decreases values.len(),
{
    if values.len() == 0 {
        target
    } else {
        let next = if target.contains(values[0]) {
            target
        } else {
            target.push(values[0])
        };
        merged_unique(next, values.drop_first())
    }
}

pub fn merge_unique_i64(target: &mut Vec<i64>, values: &[i64])
    ensures
        final(target)@ == merged_unique(old(target)@, values@),
{
    let mut i: usize = 0;
    assert(values@.skip(0) =~= values@);
    while i < values.len()
        invariant
            i <= values.len(),
            merged_unique(target@, values@.skip(i as int)) == merged_unique(
                old(target)@,
                values@,
            ),
        decreases values.len() - i,
    {
        let v = values[i];
        let ghost before = target@;
        assert(values@.skip(i as int)[0] == v);
        assert(values@.skip(i as int).drop_first() =~= values@.skip(i + 1));
        let mut present = false;
        let mut k: usize = 0;
        while k < target.len()
            invariant
                k <= target.len(),
                target@ == before,
                present == (exists|j: int| 0 <= j < k && target@[j] == v),
            decreases target.len() - k,
        {
            if target[k] == v {
                present = true;
            }
            k = k + 1;
        }
        proof {
            if present {
                let j = choose|j: int| 0 <= j < k && target@[j] == v;
                assert(target@[j] == v);
            }
            if before.contains(v) {
                let j = choose|j: int| 0 <= j < before.len() && before[j] == v;
                assert(target@[j] == v);
            }
        }
        if !present {
            target.push(v);
        }
        i = i + 1;
    }
    assert(values@.skip(values.len() as int) =~= Seq::<i64>::empty());
}

pub open spec fn spec_status_rank(status: WorkingThreadStatus) -> usize {
    match status {
        WorkingThreadStatus::Focused => 0,
        WorkingThreadStatus::Active => 1,
        WorkingThreadStatus::Cooling => 2,
    }
}

/// Focused threads rank first, then active, then cooling ones.
pub fn status_rank(status: &WorkingThreadStatus) -> (r: usize)
    ensures
        r == spec_status_rank(*status),
{
    match status {
        WorkingThreadStatus::Focused => 0,
        WorkingThreadStatus::Active => 1,
        WorkingThreadStatus::Cooling => 2,
    }
}

/// Anchors for up to the first three significant tokens of the user's text:
/// each keyed `entity:` and the token, labelled with the token, of kind
/// `topic_token`, on the thread, seen on the turn, fresh.
pub open spec fn collected_anchors(turn_id: Seq<char>, user_text: Seq<char>, thread_key: Seq<
    char,
>) -> Seq<EntityAnchorView> {
    let tokens = take_at_most(spec_significant_tokens(user_text), 3);
    Seq::new(
        tokens.len(),
        |i: int|
            EntityAnchorView {
                key: "entity:"@ + tokens[i],
                label: tokens[i],
                kind: "topic_token"@,
                thread_key,
                last_seen_turn_id: turn_id,
                stale_turns: 0,
            },
    )
}

pub fn collect_entity_anchors(turn_id: &str, user_text: &str, thread_key: &str) -> (r: Vec<
    EntityAnchor,
>)
    ensures
        r@.map_values(|a: EntityAnchor| a@) == collected_anchors(turn_id@, user_text@, thread_key@),
{
    let tokens = significant_token_parts(user_text);
    let first = take_parts(&tokens, 3);
    let ghost all = spec_significant_tokens(user_text@);
    proof {
        if tokens.len() <= 3 {
            assert(seqs_of(tokens@).take(tokens.len() as int) =~= seqs_of(tokens@));
        }
    }
    let mut r: Vec<EntityAnchor> = Vec::new();
    let mut i: usize = 0;
    while i < first.len()
        invariant
            i <= first.len(),
            seqs_of(first@) == take_at_most(all, 3),
            all == spec_significant_tokens(user_text@),
            r@.len() == i,
            forall|j: int|
                0 <= j < i ==> {
                    let token = all[j];
                    &&& (#[trigger] r@[j]).key@ == "entity:"@ + token
                    &&& r@[j].label@ == token
                    &&& r@[j].kind@ == "topic_token"@
                    &&& r@[j].thread_key@ == thread_key@
                    &&& r@[j].last_seen_turn_id@ == turn_id@
                    &&& r@[j].stale_turns == 0
                },
        decreases first.len() - i,
    {
        assert(seqs_of(first@)[i as int] == first@[i as int]@);
        assert(i < take_at_most(all, 3).len());
        assert(take_at_most(all, 3)[i as int] == all[i as int]);
        let mut key: Vec<char> = Vec::new();
        append_str(&mut key, "entity:");
        append_chars(&mut key, &first[i]);
        let anchor = EntityAnchor {
            key: string_of(&key),
            label: string_of(&first[i]),
            kind: "topic_token".to_owned(),
            thread_key: thread_key.to_owned(),
            last_seen_turn_id: turn_id.to_owned(),
            stale_turns: 0,
        };
        r.push(anchor);
        i = i + 1;
    }
    assert(r@.map_values(|a: EntityAnchor| a@) =~= collected_anchors(turn_id@, user_text@, thread_key@));
    r
}

/// A question (its text, trimmed at the end, ends with `?`) opens a loop on the thread.
pub open spec fn asks_question(user_text: Seq<char>) -> bool {
    let t = trim_end_set(user_text, CharSet::Whitespace);
    t.len() > 0 && t.last() == '?'
}

/// A question opens one loop keyed `loop:` and the thread key, labelled with
/// the question shortened to 96 characters, lasting four turns.
pub open spec fn collected_loops(turn_id: Seq<char>, user_text: Seq<char>, thread_key: Seq<
    char,
>) -> Seq<OpenLoopView> {
    if asks_question(user_text) {
        seq![
            OpenLoopView {
                key: "loop:"@ + thread_key,
                label: compact(user_text, 96),
                thread_key,
                opened_turn_id: turn_id,
                last_touched_turn_id: turn_id,
                expires_after_turns: 4,
                stale_turns: 0,
            },
        ]
    } else {
        Seq::empty()
    }
}

pub fn collect_open_loops(turn_id: &str, user_text: &str, thread_key: &str) -> (r: Vec<OpenLoop>)
    ensures
        r@.map_values(|l: OpenLoop| l@) == collected_loops(turn_id@, user_text@, thread_key@),
{
    let v = chars_of(user_text);
    let t = trim_end_set_chars(&v, CharSet::Whitespace);
    let mut r: Vec<OpenLoop> = Vec::new();
    if !ends_with_char(&t, '?') {
        assert(r@.map_values(|l: OpenLoop| l@) =~= collected_loops(turn_id@, user_text@, thread_key@));
        return r;
    }
    let mut key: Vec<char> = Vec::new();
    append_str(&mut key, "loop:");
    append_str(&mut key, thread_key);
    r.push(
        OpenLoop {
            key: string_of(&key),
            label: compact_text(user_text, 96),
            thread_key: thread_key.to_owned(),
            opened_turn_id: turn_id.to_owned(),
            last_touched_turn_id: turn_id.to_owned(),
            expires_after_turns: 4,
            stale_turns: 0,
        },
    );
    assert(r@.map_values(|l: OpenLoop| l@) =~= collected_loops(turn_id@, user_text@, thread_key@));
    r
}

/// A turn that asks for brevity ("brief" or "concise") sets a brevity constraint.
pub open spec fn asks_brevity(user_text: Seq<char>) -> bool {
    let lower = spec_to_lowercase(user_text);
    contains(lower, "brief"@) || contains(lower, "concise"@)
}

/// A request for brevity sets one constraint, `constraint:brevity`, confirmed
/// on the turn and lasting `ttl` turns.
pub open spec fn collected_constraints(turn_id: Seq<char>, user_text: Seq<char>, ttl: u32) -> Seq<
    InteractionConstraintView,
> {
    if asks_brevity(user_text) {
        seq![
            InteractionConstraintView {
                key: "constraint:brevity"@,
                text: "Keep responses brief."@,
                source: "user_text"@,
                last_confirmed_turn_id: turn_id,
                expires_after_turns: ttl,
                stale_turns: 0,
            },
        ]
    } else {
        Seq::empty()
    }
}

pub fn collect_constraints(turn_id: &str, user_text: &str, ttl: u32) -> (r: Vec<
    InteractionConstraint,
>)
    ensures
        r@.map_values(|c: InteractionConstraint| c@) == collected_constraints(turn_id@, user_text@, ttl),
{
    let lower = lowercase_chars(user_text);
    let mut r: Vec<InteractionConstraint> = Vec::new();
    if contains_str(&lower, "brief") || contains_str(&lower, "concise") {
        r.push(
            InteractionConstraint {
                key: "constraint:brevity".to_owned(),
                text: "Keep responses brief.".to_owned(),
                source: "user_text".to_owned(),
                last_confirmed_turn_id: turn_id.to_owned(),
                expires_after_turns: ttl,
                stale_turns: 0,
            },
        );
    }
    proof {
        reveal_strlit("constraint:brevity");
        reveal_strlit("Keep responses brief.");
        reveal_strlit("user_text");
    }
    assert(r@.map_values(|c: InteractionConstraint| c@) =~= collected_constraints(turn_id@, user_text@, ttl));
    r
}

/// The first position at which `flags` holds.
#[verifier::opaque]
pub open spec fn first_index(flags: Seq<bool>) -> Option<int> {
    if exists|i: int| 0 <= i < flags.len() && flags[i] {
        Some(
            choose|i: int|
                0 <= i < flags.len() && flags[i] && forall|j: int| 0 <= j < i ==> !flags[j],
        )
    } else {
        None
    }
}

pub proof fn lemma_first_index(flags: Seq<bool>, i: int)
    requires
        0 <= i < flags.len(),
        flags[i],
        forall|j: int| 0 <= j < i ==> !flags[j],
    ensures
        first_index(flags) == Some(i),
{
    reveal(first_index);
    let k = choose|k: int|
        0 <= k < flags.len() && flags[k] && forall|j: int| 0 <= j < k ==> !flags[j];
    assert(0 <= k < flags.len() && flags[k] && forall|j: int| 0 <= j < k ==> !flags[j]);
    if k < i {
        assert(!flags[k]);
    } else if i < k {
        assert(!flags[i]);
    }
}

proof fn lemma_min_exists(flags: Seq<bool>, i: int)
    requires
        0 <= i < flags.len(),
        flags[i],
    ensures
        exists|k: int| 0 <= k < flags.len() && flags[k] && forall|j: int| 0 <= j < k ==> !flags[j],
    decreases i,
{
    if exists|j: int| 0 <= j < i && flags[j] {
        let j = choose|j: int| 0 <= j < i && flags[j];
        lemma_min_exists(flags, j);
    } else {
        assert(forall|j: int| 0 <= j < i ==> !flags[j]);
    }
}

/// What `first_index` gives: the least position that holds, or none where
/// no position holds.
pub proof fn lemma_first_index_spec(flags: Seq<bool>)
    ensures
        match first_index(flags) {
            Some(i) => 0 <= i < flags.len() && flags[i] && forall|j: int| 0 <= j < i ==> !flags[j],
            None => forall|j: int| 0 <= j < flags.len() ==> !flags[j],
        },
{
    reveal(first_index);
    if exists|i: int| 0 <= i < flags.len() && flags[i] {
        let i = choose|i: int| 0 <= i < flags.len() && flags[i];
        lemma_min_exists(flags, i);
    }
}

pub proof fn lemma_first_index_none(flags: Seq<bool>)
    requires
        forall|j: int| 0 <= j < flags.len() ==> !flags[j],
    ensures
        first_index(flags) is None,
{
    reveal(first_index);
}

/// The index of the first item whose key reads `key`.
pub open spec fn key_matches(keys: Seq<Seq<char>>, key: Seq<char>) -> Seq<bool> {
    keys.map_values(|k: Seq<char>| k == key)
}

pub open spec fn first_key_index(keys: Seq<Seq<char>>, key: Seq<char>) -> Option<int> {
    first_index(key_matches(keys, key))
}

proof fn lemma_first_key_index(keys: Seq<Seq<char>>, key: Seq<char>, i: int)
    requires
        0 <= i < keys.len(),
        keys[i] == key,
        forall|j: int| 0 <= j < i ==> keys[j] != key,
    ensures
        first_key_index(keys, key) == Some(i),
{
    let flags = key_matches(keys, key);
    assert(flags[i]);
    assert forall|j: int| 0 <= j < i implies !flags[j] by {
        assert(keys[j] != key);
    }
    lemma_first_index(flags, i);
}

proof fn lemma_first_key_index_none(keys: Seq<Seq<char>>, key: Seq<char>)
    requires
        forall|j: int| 0 <= j < keys.len() ==> keys[j] != key,
    ensures
        first_key_index(keys, key) is None,
{
    let flags = key_matches(keys, key);
    assert forall|j: int| 0 <= j < flags.len() implies !flags[j] by {
        assert(keys[j] != key);
    }
    lemma_first_index_none(flags);
}

pub open spec fn anchor_keys(v: Seq<EntityAnchor>) -> Seq<Seq<char>> {
    v.map_values(|a: EntityAnchor| a.key@)
}

pub open spec fn loop_keys(v: Seq<OpenLoop>) -> Seq<Seq<char>> {
    v.map_values(|a: OpenLoop| a.key@)
}

pub open spec fn constraint_keys(v: Seq<InteractionConstraint>) -> Seq<Seq<char>> {
    v.map_values(|a: InteractionConstraint| a.key@)
}

pub open spec fn anchor_view_keys(s: Seq<EntityAnchorView>) -> Seq<Seq<char>> {
    s.map_values(|a: EntityAnchorView| a.key)
}

pub open spec fn loop_view_keys(s: Seq<OpenLoopView>) -> Seq<Seq<char>> {
    s.map_values(|l: OpenLoopView| l.key)
}

pub open spec fn constraint_view_keys(s: Seq<InteractionConstraintView>) -> Seq<Seq<char>> {
    s.map_values(|c: InteractionConstraintView| c.key)
}

/// The anchors with `e` merged in: the first anchor with its key takes its
/// label, kind, thread and turn and is fresh again; else `e` is appended.
pub open spec fn upserted_anchors(s: Seq<EntityAnchorView>, e: EntityAnchorView) -> Seq<
    EntityAnchorView,
> {
    match first_key_index(anchor_view_keys(s), e.key) {
        Some(i) => s.update(
            i,
            EntityAnchorView {
                label: e.label,
                kind: e.kind,
                thread_key: e.thread_key,
                last_seen_turn_id: e.last_seen_turn_id,
                stale_turns: 0,
                ..s[i]
            },
        ),
        None => s.push(e),
    }
}

/// The open loops with `l` merged in: the first loop with its key takes its
/// label, thread and last turn and is fresh again; else `l` is appended.
pub open spec fn upserted_loops(s: Seq<OpenLoopView>, l: OpenLoopView) -> Seq<OpenLoopView> {
    match first_key_index(loop_view_keys(s), l.key) {
        Some(i) => s.update(
            i,
            OpenLoopView {
                label: l.label,
                thread_key: l.thread_key,
                last_touched_turn_id: l.last_touched_turn_id,
                stale_turns: 0,
                ..s[i]
            },
        ),
        None => s.push(l),
    }
}

/// The constraints with `c` merged in: the first constraint with its key
/// takes its text, source, confirming turn and lifetime and is fresh again;
/// else `c` is appended.
pub open spec fn upserted_constraints(s: Seq<InteractionConstraintView>, c: InteractionConstraintView) -> Seq<
    InteractionConstraintView,
> {
    match first_key_index(constraint_view_keys(s), c.key) {
        Some(i) => s.update(
            i,
            InteractionConstraintView {
                text: c.text,
                source: c.source,
                last_confirmed_turn_id: c.last_confirmed_turn_id,
                expires_after_turns: c.expires_after_turns,
                stale_turns: 0,
                ..s[i]
            },
        ),
        None => s.push(c),
    }
}

fn find_key<'a>(keys: &Vec<Vec<char>>, key: &Vec<char>) -> (r: Option<usize>)
    ensures
        match r {
            Some(i) => i < keys.len() && seqs_of(keys@)[i as int] == key@ && forall|j: int|
                0 <= j < i ==> seqs_of(keys@)[j] != key@,
            None => forall|j: int| 0 <= j < keys.len() ==> seqs_of(keys@)[j] != key@,
        },
{
    let mut i: usize = 0;
    while i < keys.len()
        invariant
            i <= keys.len(),
            forall|j: int| 0 <= j < i ==> seqs_of(keys@)[j] != key@,
        decreases keys.len() - i,
    {
        assert(seqs_of(keys@)[i as int] == keys@[i as int]@);
        if chars_eq(&keys[i], key) {
            return Some(i);
        }
        i = i + 1;
    }
    None
}

/// Refreshes the anchor with the same key (its label, kind, thread and turn, and
/// clears its staleness), or appends the new one.
pub fn upsert_entity_anchor(target: &mut Vec<EntityAnchor>, entity: EntityAnchor)
    ensures
        final(target)@.map_values(|x: EntityAnchor| x@) == upserted_anchors(
            old(target)@.map_values(|x: EntityAnchor| x@),
            entity@,
        ),
{
    assert(anchor_keys(old(target)@) =~= anchor_view_keys(old(target)@.map_values(|x: EntityAnchor| x@)));
    let mut keys: Vec<Vec<char>> = Vec::new();
    let mut k: usize = 0;
    while k < target.len()
        invariant
            k <= target.len(),
            target@ == old(target)@,
            keys.len() == k,
            seqs_of(keys@) == anchor_keys(target@).take(k as int),
        decreases target.len() - k,
    {
        keys.push(chars_of(target[k].key.as_str()));
        k = k + 1;
        assert(seqs_of(keys@) =~= anchor_keys(target@).take(k as int));
    }
    assert(anchor_keys(target@).take(target.len() as int) =~= anchor_keys(target@));
    let key = chars_of(entity.key.as_str());
    match find_key(&keys, &key) {
        Some(i) => {
            proof {
                lemma_first_key_index(anchor_keys(target@), entity.key@, i as int);
            }
            let old_key = target[i].key.clone();
            let updated = EntityAnchor {
                key: old_key,
                label: entity.label,
                kind: entity.kind,
                thread_key: entity.thread_key,
                last_seen_turn_id: entity.last_seen_turn_id,
                stale_turns: 0,
            };
            target.set(i, updated);
        },
        None => {
            assert(seqs_of(keys@) == anchor_keys(target@));
            assert(!(exists|i: int| 0 <= i < anchor_keys(target@).len() && anchor_keys(target@)[i] == entity.key@)) by {
                assert forall|i: int| 0 <= i < anchor_keys(target@).len() implies anchor_keys(target@)[i] != entity.key@ by {
                    assert(seqs_of(keys@)[i] != key@);
                }
            }
            proof {
                lemma_first_key_index_none(anchor_keys(target@), entity.key@);
            }
            target.push(entity);
        },
    }
    assert(target@.map_values(|x: EntityAnchor| x@) =~= upserted_anchors(old(target)@.map_values(|x: EntityAnchor| x@), entity@));
}

/// Refreshes the open loop with the same key (its label, thread and last turn, and
/// clears its staleness), or appends the new one.
pub fn upsert_open_loop(target: &mut Vec<OpenLoop>, loop_item: OpenLoop)
    ensures
        final(target)@.map_values(|x: OpenLoop| x@) == upserted_loops(
            old(target)@.map_values(|x: OpenLoop| x@),
            loop_item@,
        ),
{
    assert(loop_keys(old(target)@) =~= loop_view_keys(old(target)@.map_values(|x: OpenLoop| x@)));
    let mut keys: Vec<Vec<char>> = Vec::new();
    let mut k: usize = 0;
    while k < target.len()
        invariant
            k <= target.len(),
            target@ == old(target)@,
            keys.len() == k,
            seqs_of(keys@) == loop_keys(target@).take(k as int),
        decreases target.len() - k,
    {
        keys.push(chars_of(target[k].key.as_str()));
        k = k + 1;
        assert(seqs_of(keys@) =~= loop_keys(target@).take(k as int));
    }
    assert(loop_keys(target@).take(target.len() as int) =~= loop_keys(target@));
    let key = chars_of(loop_item.key.as_str());
    match find_key(&keys, &key) {
        Some(i) => {
            proof {
                lemma_first_key_index(loop_keys(target@), loop_item.key@, i as int);
            }
            let old_key = target[i].key.clone();
            let opened = target[i].opened_turn_id.clone();
            let expires = target[i].expires_after_turns;
            let updated = OpenLoop {
                key: old_key,
                label: loop_item.label,
                thread_key: loop_item.thread_key,
                opened_turn_id: opened,
                last_touched_turn_id: loop_item.last_touched_turn_id,
                expires_after_turns: expires,
                stale_turns: 0,
            };
            target.set(i, updated);
        },
        None => {
            assert(seqs_of(keys@) == loop_keys(target@));
            assert(!(exists|i: int| 0 <= i < loop_keys(target@).len() && loop_keys(target@)[i] == loop_item.key@)) by {
                assert forall|i: int| 0 <= i < loop_keys(target@).len() implies loop_keys(target@)[i] != loop_item.key@ by {
                    assert(seqs_of(keys@)[i] != key@);
                }
            }
            proof {
                lemma_first_key_index_none(loop_keys(target@), loop_item.key@);
            }
            target.push(loop_item);
        },
    }
    assert(target@.map_values(|x: OpenLoop| x@) =~= upserted_loops(old(target)@.map_values(|x: OpenLoop| x@), loop_item@));
}

/// Refreshes the constraint with the same key (its text, source, confirming turn
/// and lifetime, and clears its staleness), or appends the new one.
pub fn upsert_constraint(target: &mut Vec<InteractionConstraint>, constraint: InteractionConstraint)
    ensures
        final(target)@.map_values(|x: InteractionConstraint| x@) == upserted_constraints(
            old(target)@.map_values(|x: InteractionConstraint| x@),
            constraint@,
        ),
{
    assert(constraint_keys(old(target)@) =~= constraint_view_keys(old(target)@.map_values(|x: InteractionConstraint| x@)));
    let mut keys: Vec<Vec<char>> = Vec::new();
    let mut k: usize = 0;
    while k < target.len()
        invariant
            k <= target.len(),
            target@ == old(target)@,
            keys.len() == k,
            seqs_of(keys@) == constraint_keys(target@).take(k as int),
        decreases target.len() - k,
    {
        keys.push(chars_of(target[k].key.as_str()));
        k = k + 1;
        assert(seqs_of(keys@) =~= constraint_keys(target@).take(k as int));
    }
    assert(constraint_keys(target@).take(target.len() as int) =~= constraint_keys(target@));
    let key = chars_of(constraint.key.as_str());
    match find_key(&keys, &key) {
        Some(i) => {
            proof {
                lemma_first_key_index(constraint_keys(target@), constraint.key@, i as int);
            }
            let old_key = target[i].key.clone();
            let updated = InteractionConstraint {
                key: old_key,
                text: constraint.text,
                source: constraint.source,
                last_confirmed_turn_id: constraint.last_confirmed_turn_id,
                expires_after_turns: constraint.expires_after_turns,
                stale_turns: 0,
            };
            target.set(i, updated);
        },
        None => {
            assert(seqs_of(keys@) == constraint_keys(target@));
            assert(!(exists|i: int| 0 <= i < constraint_keys(target@).len() && constraint_keys(target@)[i] == constraint.key@)) by {
                assert forall|i: int| 0 <= i < constraint_keys(target@).len() implies constraint_keys(target@)[i] != constraint.key@ by {
                    assert(seqs_of(keys@)[i] != key@);
                }
            }
            proof {
                lemma_first_key_index_none(constraint_keys(target@), constraint.key@);
            }
            target.push(constraint);
        },
    }
    assert(target@.map_values(|x: InteractionConstraint| x@) =~= upserted_constraints(old(target)@.map_values(|x: InteractionConstraint| x@), constraint@));
}


pub open spec fn no_duplicates(s: Seq<i64>) -> bool {
    forall|i: int, j: int| 0 <= i < j < s.len() ==> s[i] != s[j]
}

/// Merging keeps what was there, in place, adds every value, and adds no
/// duplicate: a list without repeats stays without repeats.
pub proof fn lemma_merge_unique(target: Seq<i64>, values: Seq<i64>)
    ensures
        merged_unique(target, values).len() >= target.len(),
        merged_unique(target, values).take(target.len() as int) == target,
        forall|v: i64| #[trigger] values.contains(v) ==> merged_unique(target, values).contains(v),
        forall|v: i64| #[trigger] merged_unique(target, values).contains(v) ==> target.contains(v) || values.contains(v),
        no_duplicates(target) ==> no_duplicates(merged_unique(target, values)),
    decreases values.len(),
{
    if values.len() > 0 {
        let v0 = values[0];
        let next = if target.contains(v0) {
            target
        } else {
            target.push(v0)
        };
        lemma_merge_unique(next, values.drop_first());
        let m = merged_unique(target, values);
        assert(next.take(target.len() as int) =~= target);
        assert(m.take(next.len() as int) == next);
        assert(m.take(target.len() as int) =~= next.take(target.len() as int));
        assert(next.contains(v0)) by {
            if !target.contains(v0) {
                assert(next[target.len() as int] == v0);
            }
        }
        assert(m.contains(v0)) by {
            let k = choose|k: int| 0 <= k < next.len() && next[k] == v0;
            assert(m.take(next.len() as int)[k] == v0);
            assert(m[k] == v0);
        }
        assert forall|v: i64| #[trigger] values.contains(v) implies m.contains(v) by {
            let k = choose|k: int| 0 <= k < values.len() && values[k] == v;
            if k > 0 {
                assert(values.drop_first()[k - 1] == v);
                assert(values.drop_first().contains(v));
            }
        }
        assert forall|v: i64| #[trigger] m.contains(v) implies target.contains(v) || values.contains(v) by {
            if next.contains(v) {
                let k = choose|k: int| 0 <= k < next.len() && next[k] == v;
                if k < target.len() {
                    assert(target[k] == v);
                } else {
                    assert(values[0] == v);
                }
            } else {
                assert(values.drop_first().contains(v));
                let k = choose|k: int| 0 <= k < values.drop_first().len() && values.drop_first()[k] == v;
                assert(values[k + 1] == v);
            }
        }
        if no_duplicates(target) {
            assert(no_duplicates(next)) by {
                if !target.contains(v0) {
                    assert forall|i: int, j: int| 0 <= i < j < next.len() implies next[i] != next[j] by {
                        if j == target.len() {
                            assert(next[i] == target[i]);
                        }
                    }
                }
            }
        }
    }
}

/// Every thread key is in the `thread:` namespace.
pub proof fn lemma_thread_key_prefix(text: Seq<char>)
    ensures
        crate::text::starts_with(spec_derive_thread_key(text), "thread:"@),
{
    reveal_strlit("thread:");
    reveal_strlit("thread:general");
    let k = spec_derive_thread_key(text);
    assert(k.take(7) =~= "thread:"@);
}

} // verus!
