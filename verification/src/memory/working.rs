//! Working memory between turns: how a snapshot ages, which thread holds the
//! focus, how a turn touches a thread or opens a new one, and how the snapshot
//! is pruned back to its limits.
use vstd::prelude::*;

use crate::memory::recall::{
    first_index, lemma_first_index, lemma_first_index_none, lemma_first_index_spec,
    spec_status_rank, status_rank, take_at_most,
};
use crate::clock::{now_rfc3339, utc_rfc3339_stamp};
use crate::conversation::{clone_opt_string, ChatMessage, ContextLevel};
use crate::memory::recall::{
    collect_constraints, collect_entity_anchors, collect_open_loops, collected_anchors,
    collected_constraints, collected_loops, derive_thread_key, derive_topic_label,
    merge_unique_i64, merged_unique, spec_derive_thread_key, spec_derive_topic_label,
    upsert_constraint, upsert_entity_anchor, upsert_open_loop, upserted_anchors,
    upserted_constraints, upserted_loops,
};
use crate::memory::vector::{normalize_memory_text, spec_normalize_memory_text};
use crate::text::{append_chars, chars_eq, chars_lt, seqs_of, chars_of, str_lt, compact, compact_chars, compact_text, is_blank_str, string_of, trim};
use crate::memory::types::{
    EntityAnchor, EntityAnchorView, InteractionConstraint, InteractionConstraintView, OpenLoop,
    OpenLoopView, RefreshWorkingMemoryRequest, SnapshotView, WorkingMemorySnapshot,
    WorkingMemorySourceRefs, WorkingThread, ContinuityMode, opt_text, HydrateWorkingMemoryRequest,
    RecallBudget, SourceRefsView, ThreadBridge,
    WorkingThreadStatus, WorkingThreadView, WorkingToolOutcome, WorkingToolOutcomeView,
};

verus! {

// ---------------------------------------------------------------------------
// Copies
// ---------------------------------------------------------------------------

pub fn copy_ids(v: &Vec<i64>) -> (r: Vec<i64>)
    ensures
        r@ == v@,
{
    let mut r: Vec<i64> = Vec::new();
    let mut i: usize = 0;
    while i < v.len()
        invariant
            i <= v.len(),
            r@ == v@.take(i as int),
        decreases v.len() - i,
    {
        r.push(v[i]);
        i = i + 1;
        assert(r@ =~= v@.take(i as int));
    }
    assert(v@.take(v.len() as int) =~= v@);
    r
}

pub fn clone_thread(t: &WorkingThread) -> (r: WorkingThread)
    ensures
        r@ == t@,
{
    WorkingThread {
        key: t.key.clone(),
        status: t.status,
        topic_label: t.topic_label.clone(),
        synopsis: t.synopsis.clone(),
        last_touched_turn_id: t.last_touched_turn_id.clone(),
        last_touched_at: t.last_touched_at.clone(),
        message_refs: copy_ids(&t.message_refs),
        durable_memory_ids: copy_ids(&t.durable_memory_ids),
        stale_turns: t.stale_turns,
    }
}

pub fn clone_anchor(a: &EntityAnchor) -> (r: EntityAnchor)
    ensures
        r@ == a@,
{
    EntityAnchor {
        key: a.key.clone(),
        label: a.label.clone(),
        kind: a.kind.clone(),
        thread_key: a.thread_key.clone(),
        last_seen_turn_id: a.last_seen_turn_id.clone(),
        stale_turns: a.stale_turns,
    }
}

pub fn clone_loop(l: &OpenLoop) -> (r: OpenLoop)
    ensures
        r@ == l@,
{
    OpenLoop {
        key: l.key.clone(),
        label: l.label.clone(),
        thread_key: l.thread_key.clone(),
        opened_turn_id: l.opened_turn_id.clone(),
        last_touched_turn_id: l.last_touched_turn_id.clone(),
        expires_after_turns: l.expires_after_turns,
        stale_turns: l.stale_turns,
    }
}

pub fn clone_constraint(c: &InteractionConstraint) -> (r: InteractionConstraint)
    ensures
        r@ == c@,
{
    InteractionConstraint {
        key: c.key.clone(),
        text: c.text.clone(),
        source: c.source.clone(),
        last_confirmed_turn_id: c.last_confirmed_turn_id.clone(),
        expires_after_turns: c.expires_after_turns,
        stale_turns: c.stale_turns,
    }
}

pub fn clone_outcome(o: &WorkingToolOutcome) -> (r: WorkingToolOutcome)
    ensures
        r@ == o@,
{
    WorkingToolOutcome {
        tool_name: o.tool_name.clone(),
        action: o.action.clone(),
        summary: o.summary.clone(),
        turn_id: o.turn_id.clone(),
        created_at: o.created_at.clone(),
        thread_key: o.thread_key.clone(),
        stale_turns: o.stale_turns,
    }
}

pub fn clone_refs(r: &WorkingMemorySourceRefs) -> (c: WorkingMemorySourceRefs)
    ensures
        c@ == r@,
{
    WorkingMemorySourceRefs {
        message_ids: copy_ids(&r.message_ids),
        durable_memory_ids: copy_ids(&r.durable_memory_ids),
    }
}

// ---------------------------------------------------------------------------
// Ageing
// ---------------------------------------------------------------------------

/// A thread one turn older: its staleness grows by one (saturating) and a
/// focused thread becomes merely active.
pub open spec fn aged_thread(t: WorkingThreadView) -> WorkingThreadView {
    WorkingThreadView {
        status: if t.status == WorkingThreadStatus::Focused {
            WorkingThreadStatus::Active
        } else {
            t.status
        },
        stale_turns: t.stale_turns.saturating_add(1),
        ..t
    }
}

pub open spec fn aged_anchor(a: EntityAnchorView) -> EntityAnchorView {
    EntityAnchorView { stale_turns: a.stale_turns.saturating_add(1), ..a }
}

pub open spec fn aged_loop(l: OpenLoopView) -> OpenLoopView {
    OpenLoopView { stale_turns: l.stale_turns.saturating_add(1), ..l }
}

pub open spec fn aged_constraint(c: InteractionConstraintView) -> InteractionConstraintView {
    InteractionConstraintView { stale_turns: c.stale_turns.saturating_add(1), ..c }
}

pub open spec fn aged_outcome(o: WorkingToolOutcomeView) -> WorkingToolOutcomeView {
    WorkingToolOutcomeView { stale_turns: o.stale_turns.saturating_add(1), ..o }
}

/// The snapshot one turn older: every thread, anchor, loop, constraint and
/// tool outcome has aged; nothing else changes.
pub open spec fn spec_aged(s: SnapshotView) -> SnapshotView {
    SnapshotView {
        threads: s.threads.map_values(|t: WorkingThreadView| aged_thread(t)),
        entity_anchors: s.entity_anchors.map_values(|a: EntityAnchorView| aged_anchor(a)),
        open_loops: s.open_loops.map_values(|l: OpenLoopView| aged_loop(l)),
        interaction_constraints: s.interaction_constraints.map_values(
            |c: InteractionConstraintView| aged_constraint(c),
        ),
        recent_tool_outcomes: s.recent_tool_outcomes.map_values(
            |o: WorkingToolOutcomeView| aged_outcome(o),
        ),
        ..s
    }
}

fn aged_threads(v: &Vec<WorkingThread>) -> (r: Vec<WorkingThread>)
    ensures
        r@.map_values(|t: WorkingThread| t@) == v@.map_values(|t: WorkingThread| t@).map_values(
            |t: WorkingThreadView| aged_thread(t),
        ),
{
    let mut r: Vec<WorkingThread> = Vec::new();
    let mut i: usize = 0;
    while i < v.len()
        invariant
            i <= v.len(),
            r@.len() == i,
            forall|j: int| 0 <= j < i ==> (#[trigger] r@[j])@ == aged_thread(v@[j]@),
        decreases v.len() - i,
    {
        let t = &v[i];
        let status = if t.status == WorkingThreadStatus::Focused {
            WorkingThreadStatus::Active
        } else {
            t.status
        };
        let mut aged = clone_thread(t);
        aged.status = status;
        aged.stale_turns = t.stale_turns.saturating_add(1);
        r.push(aged);
        i = i + 1;
    }
    assert(r@.map_values(|t: WorkingThread| t@) =~= v@.map_values(|t: WorkingThread| t@).map_values(
        |t: WorkingThreadView| aged_thread(t),
    ));
    r
}

fn aged_anchors(v: &Vec<EntityAnchor>) -> (r: Vec<EntityAnchor>)
    ensures
        r@.map_values(|a: EntityAnchor| a@) == v@.map_values(|a: EntityAnchor| a@).map_values(
            |a: EntityAnchorView| aged_anchor(a),
        ),
{
    let mut r: Vec<EntityAnchor> = Vec::new();
    let mut i: usize = 0;
    while i < v.len()
        invariant
            i <= v.len(),
            r@.len() == i,
            forall|j: int| 0 <= j < i ==> (#[trigger] r@[j])@ == aged_anchor(v@[j]@),
        decreases v.len() - i,
    {
        let mut a = clone_anchor(&v[i]);
        a.stale_turns = a.stale_turns.saturating_add(1);
        r.push(a);
        i = i + 1;
    }
    assert(r@.map_values(|a: EntityAnchor| a@) =~= v@.map_values(|a: EntityAnchor| a@).map_values(
        |a: EntityAnchorView| aged_anchor(a),
    ));
    r
}

fn aged_loops(v: &Vec<OpenLoop>) -> (r: Vec<OpenLoop>)
    ensures
        r@.map_values(|l: OpenLoop| l@) == v@.map_values(|l: OpenLoop| l@).map_values(
            |l: OpenLoopView| aged_loop(l),
        ),
{
    let mut r: Vec<OpenLoop> = Vec::new();
    let mut i: usize = 0;
    while i < v.len()
        invariant
            i <= v.len(),
            r@.len() == i,
            forall|j: int| 0 <= j < i ==> (#[trigger] r@[j])@ == aged_loop(v@[j]@),
        decreases v.len() - i,
    {
        let mut l = clone_loop(&v[i]);
        l.stale_turns = l.stale_turns.saturating_add(1);
        r.push(l);
        i = i + 1;
    }
    assert(r@.map_values(|l: OpenLoop| l@) =~= v@.map_values(|l: OpenLoop| l@).map_values(
        |l: OpenLoopView| aged_loop(l),
    ));
    r
}

fn aged_constraints(v: &Vec<InteractionConstraint>) -> (r: Vec<InteractionConstraint>)
    ensures
        r@.map_values(|c: InteractionConstraint| c@) == v@.map_values(
            |c: InteractionConstraint| c@,
        ).map_values(|c: InteractionConstraintView| aged_constraint(c)),
{
    let mut r: Vec<InteractionConstraint> = Vec::new();
    let mut i: usize = 0;
    while i < v.len()
        invariant
            i <= v.len(),
            r@.len() == i,
            forall|j: int| 0 <= j < i ==> (#[trigger] r@[j])@ == aged_constraint(v@[j]@),
        decreases v.len() - i,
    {
        let mut c = clone_constraint(&v[i]);
        c.stale_turns = c.stale_turns.saturating_add(1);
        r.push(c);
        i = i + 1;
    }
    assert(r@.map_values(|c: InteractionConstraint| c@) =~= v@.map_values(
        |c: InteractionConstraint| c@,
    ).map_values(|c: InteractionConstraintView| aged_constraint(c)));
    r
}

fn aged_outcomes(v: &Vec<WorkingToolOutcome>) -> (r: Vec<WorkingToolOutcome>)
    ensures
        r@.map_values(|o: WorkingToolOutcome| o@) == v@.map_values(
            |o: WorkingToolOutcome| o@,
        ).map_values(|o: WorkingToolOutcomeView| aged_outcome(o)),
{
    let mut r: Vec<WorkingToolOutcome> = Vec::new();
    let mut i: usize = 0;
    while i < v.len()
        invariant
            i <= v.len(),
            r@.len() == i,
            forall|j: int| 0 <= j < i ==> (#[trigger] r@[j])@ == aged_outcome(v@[j]@),
        decreases v.len() - i,
    {
        let mut o = clone_outcome(&v[i]);
        o.stale_turns = o.stale_turns.saturating_add(1);
        r.push(o);
        i = i + 1;
    }
    assert(r@.map_values(|o: WorkingToolOutcome| o@) =~= v@.map_values(
        |o: WorkingToolOutcome| o@,
    ).map_values(|o: WorkingToolOutcomeView| aged_outcome(o)));
    r
}

/// A copy of the snapshot one turn older.
pub fn aged_copy(s: &WorkingMemorySnapshot) -> (r: WorkingMemorySnapshot)
    ensures
        r@ == spec_aged(s@),
{
    WorkingMemorySnapshot {
        turn_id: s.turn_id.clone(),
        created_at: s.created_at.clone(),
        version: s.version,
        focus_thread_key: clone_opt_string(&s.focus_thread_key),
        threads: aged_threads(&s.threads),
        entity_anchors: aged_anchors(&s.entity_anchors),
        open_loops: aged_loops(&s.open_loops),
        interaction_constraints: aged_constraints(&s.interaction_constraints),
        recent_tool_outcomes: aged_outcomes(&s.recent_tool_outcomes),
        source_refs: clone_refs(&s.source_refs),
    }
}

/// Ages every item of the snapshot by one turn.
pub fn age_snapshot(snapshot: &mut WorkingMemorySnapshot)
    ensures
        final(snapshot)@ == spec_aged(old(snapshot)@),
{
    let aged = aged_copy(snapshot);
    *snapshot = aged;
}

// ---------------------------------------------------------------------------
// The focused thread
// ---------------------------------------------------------------------------

pub open spec fn key_flags(threads: Seq<WorkingThreadView>, key: Seq<char>) -> Seq<bool> {
    threads.map_values(|t: WorkingThreadView| t.key == key)
}

pub open spec fn focused_flags(threads: Seq<WorkingThreadView>) -> Seq<bool> {
    threads.map_values(|t: WorkingThreadView| t.status == WorkingThreadStatus::Focused)
}

/// The position of the thread named `key`, if any.
pub open spec fn thread_index(threads: Seq<WorkingThreadView>, key: Seq<char>) -> Option<int> {
    first_index(key_flags(threads, key))
}

/// The focused thread: the one the snapshot names as focus, else the first
/// focused one, else the first thread.
pub open spec fn spec_focused_index(s: SnapshotView) -> Option<int> {
    let named = match s.focus_thread_key {
        Some(k) => thread_index(s.threads, k),
        None => None,
    };
    if named is Some {
        named
    } else if first_index(focused_flags(s.threads)) is Some {
        first_index(focused_flags(s.threads))
    } else if s.threads.len() > 0 {
        Some(0)
    } else {
        None
    }
}

/// The position of the thread named `key` in `threads`.
pub fn find_thread(threads: &Vec<WorkingThread>, key: &String) -> (r: Option<usize>)
    ensures
        match thread_index(threads@.map_values(|t: WorkingThread| t@), key@) {
            Some(i) => r == Some(i as usize) && 0 <= i < threads.len(),
            None => r is None,
        },
{
    let ghost flags = key_flags(threads@.map_values(|t: WorkingThread| t@), key@);
    let mut i: usize = 0;
    while i < threads.len()
        invariant
            i <= threads.len(),
            flags == key_flags(threads@.map_values(|t: WorkingThread| t@), key@),
            flags.len() == threads.len(),
            forall|j: int| 0 <= j < i ==> !flags[j],
        decreases threads.len() - i,
    {
        if threads[i].key == *key {
            proof {
                lemma_first_index(flags, i as int);
            }
            return Some(i);
        }
        i = i + 1;
    }
    proof {
        lemma_first_index_none(flags);
    }
    None
}

fn find_focused(threads: &Vec<WorkingThread>) -> (r: Option<usize>)
    ensures
        match first_index(focused_flags(threads@.map_values(|t: WorkingThread| t@))) {
            Some(i) => r == Some(i as usize) && 0 <= i < threads.len(),
            None => r is None,
        },
{
    let ghost flags = focused_flags(threads@.map_values(|t: WorkingThread| t@));
    let mut i: usize = 0;
    while i < threads.len()
        invariant
            i <= threads.len(),
            flags == focused_flags(threads@.map_values(|t: WorkingThread| t@)),
            flags.len() == threads.len(),
            forall|j: int| 0 <= j < i ==> !flags[j],
        decreases threads.len() - i,
    {
        if threads[i].status == WorkingThreadStatus::Focused {
            proof {
                lemma_first_index(flags, i as int);
            }
            return Some(i);
        }
        i = i + 1;
    }
    proof {
        lemma_first_index_none(flags);
    }
    None
}

fn focused_index(snapshot: &WorkingMemorySnapshot) -> (r: Option<usize>)
    ensures
        match spec_focused_index(snapshot@) {
            Some(i) => r == Some(i as usize) && 0 <= i < snapshot.threads.len(),
            None => r is None,
        },
{
    let ghost ts = snapshot@.threads;
    assert(ts == snapshot.threads@.map_values(|t: WorkingThread| t@));
    let named = match &snapshot.focus_thread_key {
        Some(k) => find_thread(&snapshot.threads, k),
        None => None,
    };
    if named.is_some() {
        return named;
    }
    let focused = find_focused(&snapshot.threads);
    if focused.is_some() {
        return focused;
    }
    if snapshot.threads.len() > 0 {
        Some(0)
    } else {
        None
    }
}

/// The thread that holds the focus: the one the snapshot names, else the
/// first focused one, else the first thread; none when there are no threads.
pub fn focused_thread(snapshot: &WorkingMemorySnapshot) -> (r: Option<&WorkingThread>)
    ensures
        match spec_focused_index(snapshot@) {
            Some(i) => r is Some && r.unwrap()@ == snapshot@.threads[i],
            None => r is None,
        },
{
    let found = focused_index(snapshot);
    match found {
        Some(i) => {
            assert(spec_focused_index(snapshot@) == Some(i as int));
            assert(snapshot@.threads[i as int] == snapshot.threads@[i as int]@);
            Some(&snapshot.threads[i])
        },
        None => None,
    }
}

/// Whether the snapshot is the starter one made for this very turn: it was
/// taken on the turn, has threads, and all of them were last touched on it.
pub open spec fn spec_starter_snapshot_for_turn(s: SnapshotView, turn_id: Seq<char>) -> bool {
    &&& s.turn_id == turn_id
    &&& s.threads.len() > 0
    &&& forall|i: int| 0 <= i < s.threads.len() ==> #[trigger] s.threads[i].last_touched_turn_id == turn_id
}

pub fn starter_snapshot_for_turn(snapshot: &WorkingMemorySnapshot, current_turn_id: &str) -> (r:
    bool)
    ensures
        r == spec_starter_snapshot_for_turn(snapshot@, current_turn_id@),
{
    let cur = current_turn_id.to_owned();
    if !(snapshot.turn_id == cur) || snapshot.threads.len() == 0 {
        return false;
    }
    let ghost ts = snapshot@.threads;
    let mut i: usize = 0;
    while i < snapshot.threads.len()
        invariant
            i <= snapshot.threads.len(),
            ts == snapshot@.threads,
            cur@ == current_turn_id@,
            forall|j: int| 0 <= j < i ==> #[trigger] ts[j].last_touched_turn_id == cur@,
        decreases snapshot.threads.len() - i,
    {
        if !(snapshot.threads[i].last_touched_turn_id == cur) {
            assert(ts[i as int].last_touched_turn_id != cur@);
            return false;
        }
        i = i + 1;
    }
    true
}

// ---------------------------------------------------------------------------
// Pruning
// ---------------------------------------------------------------------------

/// The limits working memory keeps to.
#[derive(Debug, Clone, Copy)]
pub struct WorkingMemoryLimits {
    pub max_threads: usize,
    pub max_entities: usize,
    pub max_open_loops: usize,
    pub max_tool_outcomes: usize,
    pub cooling_turn_ttl: u32,
    pub constraint_ttl_turns: u32,
}

impl WorkingMemoryLimits {
    /// Three threads, eight anchors, four open loops and two tool outcomes;
    /// a cooling thread lasts six turns and a constraint two.
    pub fn standard() -> (r: WorkingMemoryLimits)
        ensures
            r.max_threads == 3,
            r.max_entities == 8,
            r.max_open_loops == 4,
            r.max_tool_outcomes == 2,
            r.cooling_turn_ttl == 6,
            r.constraint_ttl_turns == 2,
    {
        WorkingMemoryLimits {
            max_threads: 3,
            max_entities: 8,
            max_open_loops: 4,
            max_tool_outcomes: 2,
            cooling_turn_ttl: 6,
            constraint_ttl_turns: 2,
        }
    }
}

/// The items of `s` for which `p` holds, in order.
pub open spec fn kept<A>(s: Seq<A>, p: spec_fn(A) -> bool) -> Seq<A>
    decreases s.len(),
{
    if s.len() == 0 {
        s
    } else {
        let r = kept(s.drop_last(), p);
        if p(s.last()) {
            r.push(s.last())
        } else {
            r
        }
    }
}

pub open spec fn live_constraint(c: InteractionConstraintView) -> bool {
    c.stale_turns < c.expires_after_turns
}

pub open spec fn live_loop(l: OpenLoopView) -> bool {
    l.stale_turns < l.expires_after_turns
}

pub open spec fn live_outcome(o: WorkingToolOutcomeView) -> bool {
    o.stale_turns < 2
}

pub open spec fn live_anchor(a: EntityAnchorView) -> bool {
    a.stale_turns < 4
}

pub open spec fn live_thread(t: WorkingThreadView, cooling_ttl: u32) -> bool {
    t.status != WorkingThreadStatus::Cooling || t.stale_turns < cooling_ttl
}

/// Threads are ordered focused, active, cooling; then the least stale first;
/// then the most recently touched first.
pub open spec fn thread_before(a: WorkingThreadView, b: WorkingThreadView) -> bool {
    let ra = spec_status_rank(a.status);
    let rb = spec_status_rank(b.status);
    ||| ra < rb
    ||| ra == rb && a.stale_turns < b.stale_turns
    ||| ra == rb && a.stale_turns == b.stale_turns && chars_lt(b.last_touched_at, a.last_touched_at)
}

fn thread_before_exec(a: &WorkingThread, b: &WorkingThread) -> (r: bool)
    ensures
        r == thread_before(a@, b@),
{
    let ra = status_rank(&a.status);
    let rb = status_rank(&b.status);
    if ra != rb {
        ra < rb
    } else if a.stale_turns != b.stale_turns {
        a.stale_turns < b.stale_turns
    } else {
        str_lt(b.last_touched_at.as_str(), a.last_touched_at.as_str())
    }
}

/// Where `x` goes in the sorted `sorted`: before the first thread it
/// precedes, else at the end (so equal threads keep their order).
pub open spec fn before_flags(sorted: Seq<WorkingThreadView>, x: WorkingThreadView) -> Seq<bool> {
    sorted.map_values(|e: WorkingThreadView| thread_before(x, e))
}

pub open spec fn insert_position(sorted: Seq<WorkingThreadView>, x: WorkingThreadView) -> int {
    match first_index(before_flags(sorted, x)) {
        Some(j) => j,
        None => sorted.len() as int,
    }
}

/// The threads stably sorted by `thread_before`.
pub open spec fn sorted_threads(s: Seq<WorkingThreadView>) -> Seq<WorkingThreadView>
    decreases s.len(),
{
    if s.len() == 0 {
        s
    } else {
        let r = sorted_threads(s.drop_last());
        r.insert(insert_position(r, s.last()), s.last())
    }
}

fn sort_threads(v: &Vec<WorkingThread>) -> (r: Vec<WorkingThread>)
    ensures
        r@.map_values(|t: WorkingThread| t@) == sorted_threads(
            v@.map_values(|t: WorkingThread| t@),
        ),
{
    let ghost vs = v@.map_values(|t: WorkingThread| t@);
    let mut out: Vec<WorkingThread> = Vec::new();
    let mut i: usize = 0;
    while i < v.len()
        invariant
            i <= v.len(),
            vs == v@.map_values(|t: WorkingThread| t@),
            out@.map_values(|t: WorkingThread| t@) == sorted_threads(vs.take(i as int)),
        decreases v.len() - i,
    {
        let x = clone_thread(&v[i]);
        let ghost os = out@.map_values(|t: WorkingThread| t@);
        let ghost flags = before_flags(os, x@);
        let mut j: usize = 0;
        while j < out.len()
            invariant
                j <= out.len(),
                os == out@.map_values(|t: WorkingThread| t@),
                flags == before_flags(os, x@),
                forall|k: int| 0 <= k < j ==> !flags[k],
            ensures
                j < out.len() ==> flags[j as int],
            decreases out.len() - j,
        {
            if thread_before_exec(&x, &out[j]) {
                assert(os[j as int] == out@[j as int]@);
                break;
            }
            j = j + 1;
        }
        proof {
            if j < out.len() {
                lemma_first_index(flags, j as int);
            } else {
                lemma_first_index_none(flags);
            }
            assert(vs.take(i + 1).drop_last() =~= vs.take(i as int));
            assert(vs.take(i + 1).last() == x@);
        }
        out.insert(j, x);
        i = i + 1;
        assert(out@.map_values(|t: WorkingThread| t@) =~= os.insert(j as int, x@));
    }
    assert(vs.take(v.len() as int) =~= vs);
    out
}

fn keep_live_threads(v: &Vec<WorkingThread>, ttl: u32) -> (r: Vec<WorkingThread>)
    ensures
        r@.map_values(|t: WorkingThread| t@) == kept(
            v@.map_values(|t: WorkingThread| t@),
            |t: WorkingThreadView| live_thread(t, ttl),
        ),
{
    let ghost vs = v@.map_values(|t: WorkingThread| t@);
    let ghost p = |t: WorkingThreadView| live_thread(t, ttl);
    let mut out: Vec<WorkingThread> = Vec::new();
    let mut i: usize = 0;
    while i < v.len()
        invariant
            i <= v.len(),
            vs == v@.map_values(|t: WorkingThread| t@),
            p == (|t: WorkingThreadView| live_thread(t, ttl)),
            out@.map_values(|t: WorkingThread| t@) == kept(vs.take(i as int), p),
        decreases v.len() - i,
    {
        proof {
            assert(vs.take(i + 1).drop_last() =~= vs.take(i as int));
            assert(vs.take(i + 1).last() == v@[i as int]@);
        }
        if v[i].status != WorkingThreadStatus::Cooling || v[i].stale_turns < ttl {
            out.push(clone_thread(&v[i]));
        }
        i = i + 1;
        assert(out@.map_values(|t: WorkingThread| t@) =~= kept(vs.take(i as int), p));
    }
    assert(vs.take(v.len() as int) =~= vs);
    out
}

fn keep_live_anchors(v: &Vec<EntityAnchor>, limit: usize) -> (r: Vec<EntityAnchor>)
    ensures
        r@.map_values(|a: EntityAnchor| a@) == take_at_most(
            kept(v@.map_values(|a: EntityAnchor| a@), |a: EntityAnchorView| live_anchor(a)),
            limit as int,
        ),
{
    let ghost vs = v@.map_values(|a: EntityAnchor| a@);
    let ghost p = |a: EntityAnchorView| live_anchor(a);
    let mut out: Vec<EntityAnchor> = Vec::new();
    let mut i: usize = 0;
    while i < v.len()
        invariant
            i <= v.len(),
            vs == v@.map_values(|a: EntityAnchor| a@),
            p == (|a: EntityAnchorView| live_anchor(a)),
            out@.map_values(|a: EntityAnchor| a@) == kept(vs.take(i as int), p),
        decreases v.len() - i,
    {
        proof {
            assert(vs.take(i + 1).drop_last() =~= vs.take(i as int));
            assert(vs.take(i + 1).last() == v@[i as int]@);
        }
        if v[i].stale_turns < 4 {
            out.push(clone_anchor(&v[i]));
        }
        i = i + 1;
        assert(out@.map_values(|a: EntityAnchor| a@) =~= kept(vs.take(i as int), p));
    }
    assert(vs.take(v.len() as int) =~= vs);
    out.truncate(limit);
    assert(out@.map_values(|a: EntityAnchor| a@) =~= take_at_most(kept(vs, p), limit as int));
    out
}

fn keep_live_loops(v: &Vec<OpenLoop>, limit: usize) -> (r: Vec<OpenLoop>)
    ensures
        r@.map_values(|l: OpenLoop| l@) == take_at_most(
            kept(v@.map_values(|l: OpenLoop| l@), |l: OpenLoopView| live_loop(l)),
            limit as int,
        ),
{
    let ghost vs = v@.map_values(|l: OpenLoop| l@);
    let ghost p = |l: OpenLoopView| live_loop(l);
    let mut out: Vec<OpenLoop> = Vec::new();
    let mut i: usize = 0;
    while i < v.len()
        invariant
            i <= v.len(),
            vs == v@.map_values(|l: OpenLoop| l@),
            p == (|l: OpenLoopView| live_loop(l)),
            out@.map_values(|l: OpenLoop| l@) == kept(vs.take(i as int), p),
        decreases v.len() - i,
    {
        proof {
            assert(vs.take(i + 1).drop_last() =~= vs.take(i as int));
            assert(vs.take(i + 1).last() == v@[i as int]@);
        }
        if v[i].stale_turns < v[i].expires_after_turns {
            out.push(clone_loop(&v[i]));
        }
        i = i + 1;
        assert(out@.map_values(|l: OpenLoop| l@) =~= kept(vs.take(i as int), p));
    }
    assert(vs.take(v.len() as int) =~= vs);
    out.truncate(limit);
    assert(out@.map_values(|l: OpenLoop| l@) =~= take_at_most(kept(vs, p), limit as int));
    out
}

fn keep_live_constraints(v: &Vec<InteractionConstraint>) -> (r: Vec<InteractionConstraint>)
    ensures
        r@.map_values(|c: InteractionConstraint| c@) == kept(
            v@.map_values(|c: InteractionConstraint| c@),
            |c: InteractionConstraintView| live_constraint(c),
        ),
{
    let ghost vs = v@.map_values(|c: InteractionConstraint| c@);
    let ghost p = |c: InteractionConstraintView| live_constraint(c);
    let mut out: Vec<InteractionConstraint> = Vec::new();
    let mut i: usize = 0;
    while i < v.len()
        invariant
            i <= v.len(),
            vs == v@.map_values(|c: InteractionConstraint| c@),
            p == (|c: InteractionConstraintView| live_constraint(c)),
            out@.map_values(|c: InteractionConstraint| c@) == kept(vs.take(i as int), p),
        decreases v.len() - i,
    {
        proof {
            assert(vs.take(i + 1).drop_last() =~= vs.take(i as int));
            assert(vs.take(i + 1).last() == v@[i as int]@);
        }
        if v[i].stale_turns < v[i].expires_after_turns {
            out.push(clone_constraint(&v[i]));
        }
        i = i + 1;
        assert(out@.map_values(|c: InteractionConstraint| c@) =~= kept(vs.take(i as int), p));
    }
    assert(vs.take(v.len() as int) =~= vs);
    out
}

fn keep_live_outcomes(v: &Vec<WorkingToolOutcome>, limit: usize) -> (r: Vec<WorkingToolOutcome>)
    ensures
        r@.map_values(|o: WorkingToolOutcome| o@) == take_at_most(
            kept(
                v@.map_values(|o: WorkingToolOutcome| o@),
                |o: WorkingToolOutcomeView| live_outcome(o),
            ),
            limit as int,
        ),
{
    let ghost vs = v@.map_values(|o: WorkingToolOutcome| o@);
    let ghost p = |o: WorkingToolOutcomeView| live_outcome(o);
    let mut out: Vec<WorkingToolOutcome> = Vec::new();
    let mut i: usize = 0;
    while i < v.len()
        invariant
            i <= v.len(),
            vs == v@.map_values(|o: WorkingToolOutcome| o@),
            p == (|o: WorkingToolOutcomeView| live_outcome(o)),
            out@.map_values(|o: WorkingToolOutcome| o@) == kept(vs.take(i as int), p),
        decreases v.len() - i,
    {
        proof {
            assert(vs.take(i + 1).drop_last() =~= vs.take(i as int));
            assert(vs.take(i + 1).last() == v@[i as int]@);
        }
        if v[i].stale_turns < 2 {
            out.push(clone_outcome(&v[i]));
        }
        i = i + 1;
        assert(out@.map_values(|o: WorkingToolOutcome| o@) =~= kept(vs.take(i as int), p));
    }
    assert(vs.take(v.len() as int) =~= vs);
    out.truncate(limit);
    assert(out@.map_values(|o: WorkingToolOutcome| o@) =~= take_at_most(kept(vs, p), limit as int));
    out
}

/// After pruning, the focus is the first focused thread, else the first
/// thread, else nothing.
pub open spec fn pruned_focus(threads: Seq<WorkingThreadView>) -> Option<Seq<char>> {
    match first_index(focused_flags(threads)) {
        Some(i) => Some(threads[i].key),
        None => if threads.len() > 0 {
            Some(threads[0].key)
        } else {
            None
        },
    }
}

/// The pruned threads: live ones (a cooling thread lives `cooling_turn_ttl`
/// turns), stably sorted by `thread_before`, at most `max_threads` of them.
pub open spec fn pruned_threads(s: Seq<WorkingThreadView>, limits: WorkingMemoryLimits) -> Seq<
    WorkingThreadView,
> {
    take_at_most(
        sorted_threads(kept(s, |t: WorkingThreadView| live_thread(t, limits.cooling_turn_ttl))),
        limits.max_threads as int,
    )
}

/// The snapshot pruned: expired constraints, open loops, tool outcomes (two
/// turns) and anchors (four turns) dropped, the threads pruned, each list cut
/// to its limit (constraints have none), and the focus recomputed.
pub open spec fn spec_pruned(s: SnapshotView, limits: WorkingMemoryLimits) -> SnapshotView {
    let threads = pruned_threads(s.threads, limits);
    SnapshotView {
        interaction_constraints: kept(
            s.interaction_constraints,
            |c: InteractionConstraintView| live_constraint(c),
        ),
        open_loops: take_at_most(
            kept(s.open_loops, |l: OpenLoopView| live_loop(l)),
            limits.max_open_loops as int,
        ),
        recent_tool_outcomes: take_at_most(
            kept(s.recent_tool_outcomes, |o: WorkingToolOutcomeView| live_outcome(o)),
            limits.max_tool_outcomes as int,
        ),
        entity_anchors: take_at_most(
            kept(s.entity_anchors, |a: EntityAnchorView| live_anchor(a)),
            limits.max_entities as int,
        ),
        threads,
        focus_thread_key: pruned_focus(threads),
        ..s
    }
}

/// Drops what has expired, orders and cuts the threads, and points the focus
/// at the first focused thread (or the first thread).
pub fn prune_snapshot(snapshot: &mut WorkingMemorySnapshot, limits: &WorkingMemoryLimits)
    ensures
        final(snapshot)@ == spec_pruned(old(snapshot)@, *limits),
{
    let constraints = keep_live_constraints(&snapshot.interaction_constraints);
    let loops = keep_live_loops(&snapshot.open_loops, limits.max_open_loops);
    let outcomes = keep_live_outcomes(&snapshot.recent_tool_outcomes, limits.max_tool_outcomes);
    let anchors = keep_live_anchors(&snapshot.entity_anchors, limits.max_entities);
    let live = keep_live_threads(&snapshot.threads, limits.cooling_turn_ttl);
    let mut threads = sort_threads(&live);
    threads.truncate(limits.max_threads);
    let ghost ts = threads@.map_values(|t: WorkingThread| t@);
    assert(ts =~= pruned_threads(old(snapshot)@.threads, *limits));
    let focus = match find_focused(&threads) {
        Some(i) => Some(threads[i].key.clone()),
        None => if threads.len() > 0 {
            Some(threads[0].key.clone())
        } else {
            None
        },
    };
    snapshot.interaction_constraints = constraints;
    snapshot.open_loops = loops;
    snapshot.recent_tool_outcomes = outcomes;
    snapshot.entity_anchors = anchors;
    snapshot.threads = threads;
    snapshot.focus_thread_key = focus;
}

// ---------------------------------------------------------------------------
// Refreshing after a turn
// ---------------------------------------------------------------------------

/// A thread's synopsis after a turn: the user's words and the start of the
/// visible reply (96 characters), shortened to 140 characters.
pub open spec fn spec_synopsis(user_text: Seq<char>, assistant_text: Seq<char>) -> Seq<char> {
    compact(user_text + " "@ + compact(assistant_text, 96), 140)
}

/// A thread the turn continued: focused, relabelled from the user's words
/// (keeping its label where they have no significant token), its synopsis
/// rewritten, touched on the turn, fresh, and with the turn's message and
/// memory ids merged into its references.
pub open spec fn touched_thread(
    t: WorkingThreadView,
    user_text: Seq<char>,
    assistant_text: Seq<char>,
    turn_id: Seq<char>,
    now: Seq<char>,
    message_ids: Seq<i64>,
    memory_ids: Seq<i64>,
) -> WorkingThreadView {
    WorkingThreadView {
        status: WorkingThreadStatus::Focused,
        topic_label: spec_derive_topic_label(user_text, t.topic_label),
        synopsis: spec_synopsis(user_text, assistant_text),
        last_touched_turn_id: turn_id,
        last_touched_at: now,
        message_refs: merged_unique(t.message_refs, message_ids),
        durable_memory_ids: merged_unique(t.durable_memory_ids, memory_ids),
        stale_turns: 0,
        ..t
    }
}

/// A thread the turn did not continue: a focused or active one cools off.
pub open spec fn cooled_thread(t: WorkingThreadView) -> WorkingThreadView {
    if t.status == WorkingThreadStatus::Focused || t.status == WorkingThreadStatus::Active {
        WorkingThreadView { status: WorkingThreadStatus::Cooling, ..t }
    } else {
        t
    }
}

/// The thread a turn opens when it continues none.
pub open spec fn opened_thread(
    user_text: Seq<char>,
    assistant_text: Seq<char>,
    turn_id: Seq<char>,
    now: Seq<char>,
    message_ids: Seq<i64>,
    memory_ids: Seq<i64>,
) -> WorkingThreadView {
    WorkingThreadView {
        key: spec_derive_thread_key(user_text),
        status: WorkingThreadStatus::Focused,
        topic_label: spec_derive_topic_label(user_text, assistant_text),
        synopsis: spec_synopsis(user_text, assistant_text),
        last_touched_turn_id: turn_id,
        last_touched_at: now,
        message_refs: message_ids,
        durable_memory_ids: memory_ids,
        stale_turns: 0,
    }
}

/// Continues the thread with this turn.
pub fn touch_thread(
    thread: &mut WorkingThread,
    request: &RefreshWorkingMemoryRequest,
    touched_message_ids: &Vec<i64>,
    touched_memory_ids: &Vec<i64>,
    touched_at: &str,
)
    ensures
        final(thread)@ == touched_thread(
            old(thread)@,
            request.user_text@,
            request.assistant_visible_text@,
            request.turn_id@,
            touched_at@,
            touched_message_ids@,
            touched_memory_ids@,
        ),
{
    let label = derive_topic_label(request.user_text.as_str(), thread.topic_label.as_str());
    let synopsis = synopsis_of(request.user_text.as_str(), request.assistant_visible_text.as_str());
    thread.status = WorkingThreadStatus::Focused;
    thread.topic_label = label;
    thread.synopsis = synopsis;
    thread.last_touched_turn_id = request.turn_id.clone();
    thread.last_touched_at = touched_at.to_owned();
    thread.stale_turns = 0;
    merge_unique_i64(&mut thread.message_refs, touched_message_ids.as_slice());
    merge_unique_i64(&mut thread.durable_memory_ids, touched_memory_ids.as_slice());
}

fn synopsis_of(user_text: &str, assistant_text: &str) -> (r: String)
    ensures
        r@ == spec_synopsis(user_text@, assistant_text@),
{
    let mut v = chars_of(user_text);
    v.push(' ');
    let reply = chars_of(assistant_text);
    let short = compact_chars(&reply, 96);
    append_chars(&mut v, &short);
    assert(v@ =~= user_text@ + " "@ + compact(assistant_text@, 96)) by {
        reveal_strlit(" ");
    }
    let c = compact_chars(&v, 140);
    string_of(&c)
}

/// Which thread the turn continues: the one continuity matched, unless the
/// turn pivots or no thread has that key.
pub open spec fn matched_index(
    threads: Seq<WorkingThreadView>,
    mode: ContinuityMode,
    matched: Option<Seq<char>>,
) -> Option<int> {
    if mode == ContinuityMode::Pivot {
        None
    } else {
        match matched {
            Some(k) => thread_index(threads, k),
            None => None,
        }
    }
}

/// The threads after the turn: the continued one touched and the others
/// cooled; where none is continued, all cool and a new thread is opened.
pub open spec fn refreshed_threads(
    threads: Seq<WorkingThreadView>,
    index: Option<int>,
    user_text: Seq<char>,
    assistant_text: Seq<char>,
    turn_id: Seq<char>,
    now: Seq<char>,
    message_ids: Seq<i64>,
    memory_ids: Seq<i64>,
) -> Seq<WorkingThreadView> {
    match index {
        Some(i) => Seq::new(
            threads.len(),
            |j: int|
                if j == i {
                    touched_thread(
                        threads[j],
                        user_text,
                        assistant_text,
                        turn_id,
                        now,
                        message_ids,
                        memory_ids,
                    )
                } else {
                    cooled_thread(threads[j])
                },
        ),
        None => threads.map_values(|t: WorkingThreadView| cooled_thread(t)).push(
            opened_thread(user_text, assistant_text, turn_id, now, message_ids, memory_ids),
        ),
    }
}

/// The key of the thread the turn lands on.
pub open spec fn resolved_key(threads: Seq<WorkingThreadView>, index: Option<int>, user_text: Seq<
    char,
>) -> Seq<char> {
    match index {
        Some(i) => threads[i].key,
        None => spec_derive_thread_key(user_text),
    }
}

pub open spec fn upsert_all_anchors(s: Seq<EntityAnchorView>, items: Seq<EntityAnchorView>) -> Seq<
    EntityAnchorView,
>
    decreases items.len(),
{
    if items.len() == 0 {
        s
    } else {
        upsert_all_anchors(upserted_anchors(s, items[0]), items.drop_first())
    }
}

pub open spec fn upsert_all_loops(s: Seq<OpenLoopView>, items: Seq<OpenLoopView>) -> Seq<OpenLoopView>
    decreases items.len(),
{
    if items.len() == 0 {
        s
    } else {
        upsert_all_loops(upserted_loops(s, items[0]), items.drop_first())
    }
}

pub open spec fn upsert_all_constraints(
    s: Seq<InteractionConstraintView>,
    items: Seq<InteractionConstraintView>,
) -> Seq<InteractionConstraintView>
    decreases items.len(),
{
    if items.len() == 0 {
        s
    } else {
        upsert_all_constraints(upserted_constraints(s, items[0]), items.drop_first())
    }
}

fn upsert_anchors(target: &mut Vec<EntityAnchor>, items: &Vec<EntityAnchor>)
    ensures
        final(target)@.map_values(|a: EntityAnchor| a@) == upsert_all_anchors(
            old(target)@.map_values(|a: EntityAnchor| a@),
            items@.map_values(|a: EntityAnchor| a@),
        ),
{
    let ghost all = items@.map_values(|a: EntityAnchor| a@);
    let ghost goal = upsert_all_anchors(old(target)@.map_values(|a: EntityAnchor| a@), all);
    let mut i: usize = 0;
    assert(all.skip(0) =~= all);
    while i < items.len()
        invariant
            i <= items.len(),
            all == items@.map_values(|a: EntityAnchor| a@),
            upsert_all_anchors(target@.map_values(|a: EntityAnchor| a@), all.skip(i as int)) == goal,
        decreases items.len() - i,
    {
        assert(all.skip(i as int)[0] == items@[i as int]@);
        assert(all.skip(i as int).drop_first() =~= all.skip(i + 1));
        upsert_entity_anchor(target, clone_anchor(&items[i]));
        i = i + 1;
    }
    assert(all.skip(items.len() as int) =~= Seq::<EntityAnchorView>::empty());
}

fn upsert_loops(target: &mut Vec<OpenLoop>, items: &Vec<OpenLoop>)
    ensures
        final(target)@.map_values(|l: OpenLoop| l@) == upsert_all_loops(
            old(target)@.map_values(|l: OpenLoop| l@),
            items@.map_values(|l: OpenLoop| l@),
        ),
{
    let ghost all = items@.map_values(|l: OpenLoop| l@);
    let ghost goal = upsert_all_loops(old(target)@.map_values(|l: OpenLoop| l@), all);
    let mut i: usize = 0;
    assert(all.skip(0) =~= all);
    while i < items.len()
        invariant
            i <= items.len(),
            all == items@.map_values(|l: OpenLoop| l@),
            upsert_all_loops(target@.map_values(|l: OpenLoop| l@), all.skip(i as int)) == goal,
        decreases items.len() - i,
    {
        assert(all.skip(i as int)[0] == items@[i as int]@);
        assert(all.skip(i as int).drop_first() =~= all.skip(i + 1));
        upsert_open_loop(target, clone_loop(&items[i]));
        i = i + 1;
    }
    assert(all.skip(items.len() as int) =~= Seq::<OpenLoopView>::empty());
}

fn upsert_constraints(target: &mut Vec<InteractionConstraint>, items: &Vec<InteractionConstraint>)
    ensures
        final(target)@.map_values(|c: InteractionConstraint| c@) == upsert_all_constraints(
            old(target)@.map_values(|c: InteractionConstraint| c@),
            items@.map_values(|c: InteractionConstraint| c@),
        ),
{
    let ghost all = items@.map_values(|c: InteractionConstraint| c@);
    let ghost goal = upsert_all_constraints(
        old(target)@.map_values(|c: InteractionConstraint| c@),
        all,
    );
    let mut i: usize = 0;
    assert(all.skip(0) =~= all);
    while i < items.len()
        invariant
            i <= items.len(),
            all == items@.map_values(|c: InteractionConstraint| c@),
            upsert_all_constraints(target@.map_values(|c: InteractionConstraint| c@), all.skip(i as int))
                == goal,
        decreases items.len() - i,
    {
        assert(all.skip(i as int)[0] == items@[i as int]@);
        assert(all.skip(i as int).drop_first() =~= all.skip(i + 1));
        upsert_constraint(target, clone_constraint(&items[i]));
        i = i + 1;
    }
    assert(all.skip(items.len() as int) =~= Seq::<InteractionConstraintView>::empty());
}

/// The outcome a tool summary records: a non-blank summary, shortened to 140
/// characters, as a fresh outcome on the turn's thread.
pub open spec fn summary_outcome(
    summary: Option<Seq<char>>,
    turn_id: Seq<char>,
    now: Seq<char>,
    thread_key: Seq<char>,
) -> Option<WorkingToolOutcomeView> {
    match summary {
        Some(text) => if trim(text).len() > 0 {
            Some(
                WorkingToolOutcomeView {
                    tool_name: "tool"@,
                    action: "summary"@,
                    summary: compact(text, 140),
                    turn_id,
                    created_at: now,
                    thread_key,
                    stale_turns: 0,
                },
            )
        } else {
            None
        },
        None => None,
    }
}

/// The tool outcomes after the turn: the recorded outcome, if any, first.
pub open spec fn with_tool_summary(
    outcomes: Seq<WorkingToolOutcomeView>,
    summary: Option<Seq<char>>,
    turn_id: Seq<char>,
    now: Seq<char>,
    thread_key: Seq<char>,
) -> Seq<WorkingToolOutcomeView> {
    match summary_outcome(summary, turn_id, now, thread_key) {
        Some(o) => outcomes.insert(0, o),
        None => outcomes,
    }
}

/// The snapshot the turn starts from: the previous one where there is one,
/// else the one recall worked from.
pub open spec fn base_snapshot(request: RefreshWorkingMemoryRequest) -> SnapshotView {
    match request.previous_snapshot {
        Some(s) => s@,
        None => request.recalled_snapshot@,
    }
}

/// Working memory after a turn: the base snapshot aged; the matched thread
/// continued (or a new one opened); anchors, open loops and constraints from
/// the user's words merged in; a tool summary recorded; the turn, time,
/// version and references set; and the whole pruned.
pub open spec fn spec_refresh(
    request: RefreshWorkingMemoryRequest,
    mode: ContinuityMode,
    matched: Option<Seq<char>>,
    now: Seq<char>,
    limits: WorkingMemoryLimits,
) -> SnapshotView {
    let aged = spec_aged(base_snapshot(request));
    let user = request.user_text@;
    let turn = request.turn_id@;
    let message_ids = merged_unique(
        request.selected_message_ids@,
        request.current_turn_message_ids@,
    );
    let index = matched_index(aged.threads, mode, matched);
    let key = resolved_key(aged.threads, index, user);
    spec_pruned(
        SnapshotView {
            turn_id: turn,
            created_at: now,
            version: 1,
            focus_thread_key: aged.focus_thread_key,
            threads: refreshed_threads(
                aged.threads,
                index,
                user,
                request.assistant_visible_text@,
                turn,
                now,
                message_ids,
                request.selected_memory_ids@,
            ),
            entity_anchors: upsert_all_anchors(
                aged.entity_anchors,
                collected_anchors(turn, user, key),
            ),
            open_loops: upsert_all_loops(aged.open_loops, collected_loops(turn, user, key)),
            interaction_constraints: upsert_all_constraints(
                aged.interaction_constraints,
                collected_constraints(turn, user, limits.constraint_ttl_turns),
            ),
            recent_tool_outcomes: with_tool_summary(
                aged.recent_tool_outcomes,
                opt_text(request.tool_summary),
                turn,
                now,
                key,
            ),
            source_refs: request.refs_used@,
        },
        limits,
    )
}

fn refresh_threads(
    threads: &Vec<WorkingThread>,
    index: Option<usize>,
    request: &RefreshWorkingMemoryRequest,
    message_ids: &Vec<i64>,
    now: &str,
) -> (r: Vec<WorkingThread>)
    requires
        index matches Some(i) ==> i < threads.len(),
    ensures
        r@.map_values(|t: WorkingThread| t@) == refreshed_threads(
            threads@.map_values(|t: WorkingThread| t@),
            match index {
                Some(i) => Some(i as int),
                None => None,
            },
            request.user_text@,
            request.assistant_visible_text@,
            request.turn_id@,
            now@,
            message_ids@,
            request.selected_memory_ids@,
        ),
{
    let ghost ts = threads@.map_values(|t: WorkingThread| t@);
    let ghost idx: Option<int> = match index {
        Some(i) => Some(i as int),
        None => None,
    };
    let mut out: Vec<WorkingThread> = Vec::new();
    let mut j: usize = 0;
    while j < threads.len()
        invariant
            j <= threads.len(),
            ts == threads@.map_values(|t: WorkingThread| t@),
            index matches Some(i) ==> i < threads.len(),
            idx == match index {
                Some(i) => Some(i as int),
                None => None,
            },
            out@.len() == j,
            forall|k: int|
                0 <= k < j ==> (#[trigger] out@[k])@ == (if idx == Some(k) {
                    touched_thread(
                        ts[k],
                        request.user_text@,
                        request.assistant_visible_text@,
                        request.turn_id@,
                        now@,
                        message_ids@,
                        request.selected_memory_ids@,
                    )
                } else {
                    cooled_thread(ts[k])
                }),
        decreases threads.len() - j,
    {
        let mut t = clone_thread(&threads[j]);
        if index == Some(j) {
            touch_thread(&mut t, request, message_ids, &request.selected_memory_ids, now);
        } else if t.status == WorkingThreadStatus::Focused || t.status == WorkingThreadStatus::Active {
            t.status = WorkingThreadStatus::Cooling;
        }
        out.push(t);
        j = j + 1;
    }
    match index {
        Some(i) => {
            assert(out@.map_values(|t: WorkingThread| t@) =~= refreshed_threads(
                ts,
                idx,
                request.user_text@,
                request.assistant_visible_text@,
                request.turn_id@,
                now@,
                message_ids@,
                request.selected_memory_ids@,
            ));
        },
        None => {
            let ghost cooled = out@.map_values(|t: WorkingThread| t@);
            assert(cooled =~= ts.map_values(|t: WorkingThreadView| cooled_thread(t)));
            let opened = WorkingThread {
                key: derive_thread_key(request.user_text.as_str()),
                status: WorkingThreadStatus::Focused,
                topic_label: derive_topic_label(
                    request.user_text.as_str(),
                    request.assistant_visible_text.as_str(),
                ),
                synopsis: synopsis_of(
                    request.user_text.as_str(),
                    request.assistant_visible_text.as_str(),
                ),
                last_touched_turn_id: request.turn_id.clone(),
                last_touched_at: now.to_owned(),
                message_refs: copy_ids(message_ids),
                durable_memory_ids: copy_ids(&request.selected_memory_ids),
                stale_turns: 0,
            };
            out.push(opened);
            assert(out@.map_values(|t: WorkingThread| t@) =~= cooled.push(opened@));
        },
    }
    out
}

fn tool_outcome(request: &RefreshWorkingMemoryRequest, now: &str, thread_key: &String) -> (r: Option<
    WorkingToolOutcome,
>)
    ensures
        match r {
            Some(o) => summary_outcome(
                opt_text(request.tool_summary),
                request.turn_id@,
                now@,
                thread_key@,
            ) == Some(o@),
            None => summary_outcome(
                opt_text(request.tool_summary),
                request.turn_id@,
                now@,
                thread_key@,
            ) is None,
        },
{
    match &request.tool_summary {
        Some(summary) => {
            if is_blank_str(summary.as_str()) {
                None
            } else {
                let o = WorkingToolOutcome {
                    tool_name: "tool".to_owned(),
                    action: "summary".to_owned(),
                    summary: compact_text(summary.as_str(), 140),
                    turn_id: request.turn_id.clone(),
                    created_at: now.to_owned(),
                    thread_key: thread_key.clone(),
                    stale_turns: 0,
                };
                Some(o)
            }
        },
        None => None,
    }
}

/// Working memory after a turn. `continuity_mode` and `matched_thread_key`
/// are the continuity resolved for the turn on the aged base snapshot (what
/// `age_snapshot` makes of the previous snapshot, or else of the one recall
/// worked from); `now` is the time of the refresh.
pub fn refresh_working_memory_at(
    request: &RefreshWorkingMemoryRequest,
    continuity_mode: ContinuityMode,
    matched_thread_key: &Option<String>,
    now: &str,
    limits: &WorkingMemoryLimits,
) -> (r: WorkingMemorySnapshot)
    ensures
        r@ == spec_refresh(*request, continuity_mode, opt_text(*matched_thread_key), now@, *limits),
{
    let mut snapshot = match &request.previous_snapshot {
        Some(previous) => aged_copy(previous),
        None => aged_copy(&request.recalled_snapshot),
    };
    let ghost aged = snapshot@;
    let mut message_ids = copy_ids(&request.selected_message_ids);
    merge_unique_i64(&mut message_ids, request.current_turn_message_ids.as_slice());
    let index = if continuity_mode == ContinuityMode::Pivot {
        None
    } else {
        match matched_thread_key {
            Some(k) => find_thread(&snapshot.threads, k),
            None => None,
        }
    };
    let ghost idx: Option<int> = match index {
        Some(i) => Some(i as int),
        None => None,
    };
    assert(idx == matched_index(aged.threads, continuity_mode, opt_text(*matched_thread_key)));
    let key = match index {
        Some(i) => snapshot.threads[i].key.clone(),
        None => derive_thread_key(request.user_text.as_str()),
    };
    assert(key@ == resolved_key(aged.threads, idx, request.user_text@));
    let WorkingMemorySnapshot {
        focus_thread_key,
        threads: aged_list,
        entity_anchors: mut anchors,
        open_loops: mut loops,
        interaction_constraints: mut constraints,
        recent_tool_outcomes: mut outcomes,
        ..
    } = snapshot;
    let threads = refresh_threads(&aged_list, index, request, &message_ids, now);
    let anchors_new = collect_entity_anchors(
        request.turn_id.as_str(),
        request.user_text.as_str(),
        key.as_str(),
    );
    let loops_new = collect_open_loops(
        request.turn_id.as_str(),
        request.user_text.as_str(),
        key.as_str(),
    );
    let constraints_new = collect_constraints(
        request.turn_id.as_str(),
        request.user_text.as_str(),
        limits.constraint_ttl_turns,
    );
    upsert_anchors(&mut anchors, &anchors_new);
    upsert_loops(&mut loops, &loops_new);
    upsert_constraints(&mut constraints, &constraints_new);
    match tool_outcome(request, now, &key) {
        Some(o) => {
            let ghost before = outcomes@.map_values(|x: WorkingToolOutcome| x@);
            outcomes.insert(0, o);
            assert(outcomes@.map_values(|x: WorkingToolOutcome| x@) =~= before.insert(0, o@));
        },
        None => {},
    }
    let mut refreshed = WorkingMemorySnapshot {
        turn_id: request.turn_id.clone(),
        created_at: now.to_owned(),
        version: 1,
        focus_thread_key,
        threads,
        entity_anchors: anchors,
        open_loops: loops,
        interaction_constraints: constraints,
        recent_tool_outcomes: outcomes,
        source_refs: clone_refs(&request.refs_used),
    };
    proof {
        let pre = refreshed@;
        let user = request.user_text@;
        let turn = request.turn_id@;
        assert(aged == spec_aged(base_snapshot(*request)));
        assert(message_ids@ == merged_unique(request.selected_message_ids@, request.current_turn_message_ids@));
        assert(pre.threads == refreshed_threads(aged.threads, idx, user, request.assistant_visible_text@, turn, now@, message_ids@, request.selected_memory_ids@));
        assert(pre.entity_anchors == upsert_all_anchors(aged.entity_anchors, collected_anchors(turn, user, key@)));
        assert(pre.open_loops == upsert_all_loops(aged.open_loops, collected_loops(turn, user, key@)));
        assert(pre.interaction_constraints == upsert_all_constraints(aged.interaction_constraints, collected_constraints(turn, user, limits.constraint_ttl_turns)));
        assert(pre.recent_tool_outcomes == with_tool_summary(aged.recent_tool_outcomes, opt_text(request.tool_summary), turn, now@, key@));
    }
    prune_snapshot(&mut refreshed, limits);
    refreshed
}

/// Working memory after a turn, stamped with the current time: what
/// `refresh_working_memory_at` gives at whatever instant the clock reported.
pub fn refresh_working_memory(
    request: &RefreshWorkingMemoryRequest,
    continuity_mode: ContinuityMode,
    matched_thread_key: &Option<String>,
    limits: &WorkingMemoryLimits,
) -> (r: WorkingMemorySnapshot)
    ensures
        exists|now: Seq<char>|
            utc_rfc3339_stamp(now) && r@ == #[trigger] spec_refresh(
                *request,
                continuity_mode,
                opt_text(*matched_thread_key),
                now,
                *limits,
            ),
{
    let now = now_rfc3339();
    refresh_working_memory_at(request, continuity_mode, matched_thread_key, now.as_str(), limits)
}

// ---------------------------------------------------------------------------
// What pruning and refreshing keep
// ---------------------------------------------------------------------------

proof fn lemma_kept<A>(s: Seq<A>, p: spec_fn(A) -> bool)
    ensures
        kept(s, p).len() <= s.len(),
        forall|j: int| 0 <= j < kept(s, p).len() ==> p(#[trigger] kept(s, p)[j]) && s.contains(kept(s, p)[j]),
        forall|i: int| 0 <= i < s.len() && p(#[trigger] s[i]) ==> kept(s, p).contains(s[i]),
    decreases s.len(),
{
    if s.len() > 0 {
        let d = s.drop_last();
        lemma_kept(d, p);
        let r = kept(d, p);
        assert forall|j: int| 0 <= j < kept(s, p).len() implies p(#[trigger] kept(s, p)[j]) && s.contains(kept(s, p)[j]) by {
            if j < r.len() {
                assert(kept(s, p)[j] == r[j]);
                let k = choose|k: int| 0 <= k < d.len() && d[k] == r[j];
                assert(s[k] == r[j]);
            } else {
                assert(kept(s, p)[j] == s.last());
                assert(s[s.len() - 1] == s.last());
            }
        }
        assert forall|i: int| 0 <= i < s.len() && p(#[trigger] s[i]) implies kept(s, p).contains(s[i]) by {
            if i < s.len() - 1 {
                assert(d[i] == s[i]);
                let k = choose|k: int| 0 <= k < r.len() && r[k] == d[i];
                assert(kept(s, p)[k] == r[k]);
            } else {
                assert(kept(s, p)[kept(s, p).len() - 1] == s.last());
            }
        }
    }
}

/// Inserting the last thread into an ordering of the others keeps exactly the
/// threads there were.
#[verifier::spinoff_prover]
proof fn lemma_insert_keeps_threads(s: Seq<WorkingThreadView>, r: Seq<WorkingThreadView>, pos: int)
    requires
        s.len() > 0,
        r.len() == s.len() - 1,
        0 <= pos <= r.len(),
        forall|j: int| 0 <= j < r.len() ==> s.drop_last().contains(#[trigger] r[j]),
        forall|i: int| 0 <= i < r.len() ==> r.contains(#[trigger] s.drop_last()[i]),
    ensures
        forall|j: int| 0 <= j < s.len() ==> s.contains(#[trigger] r.insert(pos, s.last())[j]),
        forall|i: int| 0 <= i < s.len() ==> r.insert(pos, s.last()).contains(#[trigger] s[i]),
{
    let d = s.drop_last();
    let x = s.last();
    let out = r.insert(pos, x);
    assert forall|j: int| 0 <= j < s.len() implies s.contains(#[trigger] out[j]) by {
        if j < pos {
            assert(out[j] == r[j]);
            let k = choose|k: int| 0 <= k < d.len() && d[k] == r[j];
            assert(s[k] == r[j]);
        } else if j == pos {
            assert(s[s.len() - 1] == x);
        } else {
            assert(out[j] == r[j - 1]);
            let k = choose|k: int| 0 <= k < d.len() && d[k] == r[j - 1];
            assert(s[k] == r[j - 1]);
        }
    }
    assert forall|i: int| 0 <= i < s.len() implies out.contains(#[trigger] s[i]) by {
        if i == s.len() - 1 {
            assert(out[pos] == x);
        } else {
            assert(d[i] == s[i]);
            let k = choose|k: int| 0 <= k < r.len() && r[k] == d[i];
            if k < pos {
                assert(out[k] == r[k]);
            } else {
                assert(out[k + 1] == r[k]);
            }
        }
    }
}

/// Where some thread is focused, inserting the last thread keeps a focused
/// thread first.
#[verifier::spinoff_prover]
proof fn lemma_insert_keeps_focus_first(s: Seq<WorkingThreadView>, r: Seq<WorkingThreadView>)
    requires
        s.len() > 0,
        r.len() == s.len() - 1,
        forall|i: int| 0 <= i < r.len() ==> r.contains(#[trigger] s.drop_last()[i]),
        (exists|i: int| 0 <= i < r.len() && s.drop_last()[i].status == WorkingThreadStatus::Focused) ==> r[0].status
            == WorkingThreadStatus::Focused,
        exists|i: int| 0 <= i < s.len() && s[i].status == WorkingThreadStatus::Focused,
    ensures
        r.insert(insert_position(r, s.last()), s.last())[0].status == WorkingThreadStatus::Focused,
{
    let d = s.drop_last();
    let x = s.last();
    let flags = before_flags(r, x);
    lemma_first_index_spec(flags);
    let pos = insert_position(r, x);
    let out = r.insert(pos, x);
    if x.status == WorkingThreadStatus::Focused {
        if r.len() > 0 && r[0].status != WorkingThreadStatus::Focused {
            assert(flags[0]);
            assert(pos == 0);
        }
        if pos > 0 {
            assert(out[0] == r[0]);
        }
    } else {
        let i = choose|i: int| 0 <= i < s.len() && s[i].status == WorkingThreadStatus::Focused;
        assert(i < s.len() - 1);
        assert(d[i] == s[i]);
        assert(r[0].status == WorkingThreadStatus::Focused);
        assert(!flags[0]);
        assert(pos > 0);
        assert(out[0] == r[0]);
    }
}

#[verifier::spinoff_prover]
proof fn lemma_sorted_threads(s: Seq<WorkingThreadView>)
    ensures
        sorted_threads(s).len() == s.len(),
        forall|j: int| 0 <= j < s.len() ==> s.contains(#[trigger] sorted_threads(s)[j]),
        forall|i: int| 0 <= i < s.len() ==> sorted_threads(s).contains(#[trigger] s[i]),
        (exists|i: int| 0 <= i < s.len() && s[i].status == WorkingThreadStatus::Focused) ==> sorted_threads(s)[0].status
            == WorkingThreadStatus::Focused,
    decreases s.len(),
{
    if s.len() > 0 {
        let d = s.drop_last();
        let x = s.last();
        lemma_sorted_threads(d);
        let r = sorted_threads(d);
        let flags = before_flags(r, x);
        lemma_first_index_spec(flags);
        let pos = insert_position(r, x);
        assert(0 <= pos <= r.len());
        assert(sorted_threads(s) == r.insert(pos, x));
        lemma_insert_keeps_threads(s, r, pos);
        if exists|i: int| 0 <= i < s.len() && s[i].status == WorkingThreadStatus::Focused {
            lemma_insert_keeps_focus_first(s, r);
        }
    }
}

/// A snapshot as pruning leaves it: each list within its limit, nothing
/// expired, and the focus naming a thread exactly when there are threads.
pub open spec fn within_limits(s: SnapshotView, limits: WorkingMemoryLimits) -> bool {
    &&& s.threads.len() <= limits.max_threads
    &&& s.entity_anchors.len() <= limits.max_entities
    &&& s.open_loops.len() <= limits.max_open_loops
    &&& s.recent_tool_outcomes.len() <= limits.max_tool_outcomes
    &&& forall|i: int| 0 <= i < s.threads.len() ==> live_thread(#[trigger] s.threads[i], limits.cooling_turn_ttl)
    &&& forall|i: int| 0 <= i < s.entity_anchors.len() ==> live_anchor(#[trigger] s.entity_anchors[i])
    &&& forall|i: int| 0 <= i < s.open_loops.len() ==> live_loop(#[trigger] s.open_loops[i])
    &&& forall|i: int| 0 <= i < s.interaction_constraints.len() ==> live_constraint(#[trigger] s.interaction_constraints[i])
    &&& forall|i: int| 0 <= i < s.recent_tool_outcomes.len() ==> live_outcome(#[trigger] s.recent_tool_outcomes[i])
    &&& (s.focus_thread_key is Some <==> s.threads.len() > 0)
    &&& (s.focus_thread_key matches Some(k) ==> exists|i: int| 0 <= i < s.threads.len() && #[trigger] s.threads[i].key == k)
}

proof fn lemma_take_at_most<A>(s: Seq<A>, n: int)
    requires
        n >= 0,
    ensures
        take_at_most(s, n).len() <= n,
        take_at_most(s, n).len() <= s.len(),
        forall|j: int| 0 <= j < take_at_most(s, n).len() ==> #[trigger] take_at_most(s, n)[j] == s[j],
{
}

/// Pruning always leaves a snapshot within its limits, whatever it was given.
pub proof fn lemma_pruned_within_limits(s: SnapshotView, limits: WorkingMemoryLimits)
    ensures
        within_limits(spec_pruned(s, limits), limits),
{
    let p = spec_pruned(s, limits);
    let live = kept(s.threads, |t: WorkingThreadView| live_thread(t, limits.cooling_turn_ttl));
    lemma_kept(s.threads, |t: WorkingThreadView| live_thread(t, limits.cooling_turn_ttl));
    lemma_sorted_threads(live);
    let sorted = sorted_threads(live);
    lemma_take_at_most(sorted, limits.max_threads as int);
    assert forall|i: int| 0 <= i < p.threads.len() implies live_thread(#[trigger] p.threads[i], limits.cooling_turn_ttl) by {
        assert(p.threads[i] == sorted[i]);
        assert(live.contains(sorted[i]));
        let k = choose|k: int| 0 <= k < live.len() && live[k] == sorted[i];
        assert(live_thread(live[k], limits.cooling_turn_ttl));
    }
    let anchors = kept(s.entity_anchors, |a: EntityAnchorView| live_anchor(a));
    lemma_kept(s.entity_anchors, |a: EntityAnchorView| live_anchor(a));
    lemma_take_at_most(anchors, limits.max_entities as int);
    assert forall|i: int| 0 <= i < p.entity_anchors.len() implies live_anchor(#[trigger] p.entity_anchors[i]) by {
        assert(p.entity_anchors[i] == anchors[i]);
    }
    let loops = kept(s.open_loops, |l: OpenLoopView| live_loop(l));
    lemma_kept(s.open_loops, |l: OpenLoopView| live_loop(l));
    lemma_take_at_most(loops, limits.max_open_loops as int);
    assert forall|i: int| 0 <= i < p.open_loops.len() implies live_loop(#[trigger] p.open_loops[i]) by {
        assert(p.open_loops[i] == loops[i]);
    }
    lemma_kept(s.interaction_constraints, |c: InteractionConstraintView| live_constraint(c));
    let outcomes = kept(s.recent_tool_outcomes, |o: WorkingToolOutcomeView| live_outcome(o));
    lemma_kept(s.recent_tool_outcomes, |o: WorkingToolOutcomeView| live_outcome(o));
    lemma_take_at_most(outcomes, limits.max_tool_outcomes as int);
    assert forall|i: int| 0 <= i < p.recent_tool_outcomes.len() implies live_outcome(#[trigger] p.recent_tool_outcomes[i]) by {
        assert(p.recent_tool_outcomes[i] == outcomes[i]);
    }
    lemma_first_index_spec(focused_flags(p.threads));
    match first_index(focused_flags(p.threads)) {
        Some(i) => {
            assert(p.threads[i].key == p.threads[i].key);
        },
        None => {
            if p.threads.len() > 0 {
                assert(p.threads[0].key == p.threads[0].key);
            }
        },
    }
}

/// All focused threads of `s` are `f`.
pub open spec fn only_focus(s: Seq<WorkingThreadView>, f: WorkingThreadView) -> bool {
    forall|i: int| 0 <= i < s.len() && (#[trigger] s[i]).status == WorkingThreadStatus::Focused ==> s[i] == f
}

/// The thread a turn lands on: the continued thread as touched, or the new one.
pub open spec fn landed_thread(request: RefreshWorkingMemoryRequest, mode: ContinuityMode, matched: Option<Seq<char>>, now: Seq<char>) -> WorkingThreadView {
    let aged = spec_aged(base_snapshot(request));
    let message_ids = merged_unique(request.selected_message_ids@, request.current_turn_message_ids@);
    match matched_index(aged.threads, mode, matched) {
        Some(i) => touched_thread(aged.threads[i], request.user_text@, request.assistant_visible_text@, request.turn_id@, now, message_ids, request.selected_memory_ids@),
        None => opened_thread(request.user_text@, request.assistant_visible_text@, request.turn_id@, now, message_ids, request.selected_memory_ids@),
    }
}

/// Continuity decides where a turn lands: unless the turn pivots, a matched
/// key that names a thread of the snapshot the turn starts from continues that
/// thread. It comes first, focused and fresh (no stale turns), with this turn
/// as its last touch, and the snapshot's focus is that key; no thread keyed
/// from the user's words takes its place. This needs room for one thread.
pub proof fn lemma_matched_thread_is_continued(
    request: RefreshWorkingMemoryRequest,
    mode: ContinuityMode,
    key: Seq<char>,
    now: Seq<char>,
    limits: WorkingMemoryLimits,
)
    requires
        limits.max_threads >= 1,
        mode != ContinuityMode::Pivot,
        exists|i: int| 0 <= i < base_snapshot(request).threads.len() && #[trigger] base_snapshot(request).threads[i].key == key,
    ensures
        ({
            let r = spec_refresh(request, mode, Some(key), now, limits);
            &&& r.focus_thread_key == Some(key)
            &&& r.threads.len() >= 1
            &&& r.threads[0].key == key
            &&& r.threads[0].status == WorkingThreadStatus::Focused
            &&& r.threads[0].stale_turns == 0
            &&& r.threads[0].last_touched_turn_id == request.turn_id@
        }),
{
    lemma_refresh_focuses_landed_thread(request, mode, Some(key), now, limits);
    let base = base_snapshot(request);
    let aged = spec_aged(base);
    let i = choose|i: int| 0 <= i < base.threads.len() && #[trigger] base.threads[i].key == key;
    assert(aged.threads[i].key == key);
    let flags = key_flags(aged.threads, key);
    assert(flags[i]);
    lemma_first_index_spec(flags);
    let j = first_index(flags)->0;
    assert(aged.threads[j].key == key);
    assert(matched_index(aged.threads, mode, Some(key)) == Some(j));
}

/// After a turn, the thread it landed on (the one continuity matched, or a
/// new one keyed from the user's words) comes first, is the only focused
/// thread, and holds the focus; all else is within the limits. This needs
/// room for one thread.
pub proof fn lemma_refresh_focuses_landed_thread(
    request: RefreshWorkingMemoryRequest,
    mode: ContinuityMode,
    matched: Option<Seq<char>>,
    now: Seq<char>,
    limits: WorkingMemoryLimits,
)
    requires
        limits.max_threads >= 1,
    ensures
        ({
            let r = spec_refresh(request, mode, matched, now, limits);
            let f = landed_thread(request, mode, matched, now);
            &&& r.threads.len() >= 1
            &&& r.threads[0] == f
            &&& only_focus(r.threads, f)
            &&& r.focus_thread_key == Some(f.key)
            &&& f.key == resolved_key(
                spec_aged(base_snapshot(request)).threads,
                matched_index(spec_aged(base_snapshot(request)).threads, mode, matched),
                request.user_text@,
            )
            &&& within_limits(r, limits)
        }),
{
    let aged = spec_aged(base_snapshot(request));
    let user = request.user_text@;
    let turn = request.turn_id@;
    let message_ids = merged_unique(request.selected_message_ids@, request.current_turn_message_ids@);
    let index = matched_index(aged.threads, mode, matched);
    let key = resolved_key(aged.threads, index, user);
    let f = landed_thread(request, mode, matched, now);
    let threads = refreshed_threads(aged.threads, index, user, request.assistant_visible_text@, turn, now, message_ids, request.selected_memory_ids@);
    let pre = SnapshotView {
        turn_id: turn,
        created_at: now,
        version: 1,
        focus_thread_key: aged.focus_thread_key,
        threads,
        entity_anchors: upsert_all_anchors(aged.entity_anchors, collected_anchors(turn, user, key)),
        open_loops: upsert_all_loops(aged.open_loops, collected_loops(turn, user, key)),
        interaction_constraints: upsert_all_constraints(aged.interaction_constraints, collected_constraints(turn, user, limits.constraint_ttl_turns)),
        recent_tool_outcomes: with_tool_summary(aged.recent_tool_outcomes, opt_text(request.tool_summary), turn, now, key),
        source_refs: request.refs_used@,
    };
    assert(spec_refresh(request, mode, matched, now, limits) == spec_pruned(pre, limits));
    lemma_pruned_within_limits(pre, limits);
    // the landed thread is in `threads`, and it is the only focused one there
    let pos: int = match index {
        Some(i) => i,
        None => aged.threads.len() as int,
    };
    match index {
        Some(i) => {
            if mode != ContinuityMode::Pivot {
                match matched {
                    Some(k) => {
                        lemma_first_index_spec(key_flags(aged.threads, k));
                    },
                    None => {},
                }
            }
            assert(0 <= i < aged.threads.len());
        },
        None => {},
    }
    assert(0 <= pos < threads.len());
    assert(threads[pos] == f);
    assert(f.status == WorkingThreadStatus::Focused);
    assert(f.key == key);
    assert(only_focus(threads, f));
    let ttl = limits.cooling_turn_ttl;
    let live = kept(threads, |t: WorkingThreadView| live_thread(t, ttl));
    lemma_kept(threads, |t: WorkingThreadView| live_thread(t, ttl));
    assert(live_thread(threads[pos], ttl));
    assert(live.contains(f));
    assert(only_focus(live, f)) by {
        assert forall|i: int| 0 <= i < live.len() && (#[trigger] live[i]).status == WorkingThreadStatus::Focused implies live[i] == f by {
            assert(threads.contains(live[i]));
            let k = choose|k: int| 0 <= k < threads.len() && threads[k] == live[i];
        }
    }
    lemma_sorted_threads(live);
    let sorted = sorted_threads(live);
    let kf = choose|k: int| 0 <= k < live.len() && live[k] == f;
    assert(live[kf].status == WorkingThreadStatus::Focused);
    assert(sorted[0].status == WorkingThreadStatus::Focused);
    assert(live.contains(sorted[0]));
    let k0 = choose|k: int| 0 <= k < live.len() && live[k] == sorted[0];
    assert(sorted[0] == f);
    assert(only_focus(sorted, f)) by {
        assert forall|i: int| 0 <= i < sorted.len() && (#[trigger] sorted[i]).status == WorkingThreadStatus::Focused implies sorted[i] == f by {
            assert(live.contains(sorted[i]));
            let k = choose|k: int| 0 <= k < live.len() && live[k] == sorted[i];
        }
    }
    let out = take_at_most(sorted, limits.max_threads as int);
    lemma_take_at_most(sorted, limits.max_threads as int);
    assert(out.len() >= 1);
    assert(out[0] == f);
    assert(only_focus(out, f)) by {
        assert forall|i: int| 0 <= i < out.len() && (#[trigger] out[i]).status == WorkingThreadStatus::Focused implies out[i] == f by {
            assert(out[i] == sorted[i]);
        }
    }
    let flags = focused_flags(out);
    assert(flags[0]);
    lemma_first_index(flags, 0);
}

// ---------------------------------------------------------------------------
// The starter snapshot, and what recall takes from a snapshot
// ---------------------------------------------------------------------------

pub open spec fn message_ids(messages: Seq<ChatMessage>) -> Seq<i64> {
    messages.map_values(|m: ChatMessage| m.id)
}

fn ids_of(messages: &[ChatMessage]) -> (r: Vec<i64>)
    ensures
        r@ == message_ids(messages@),
{
    let mut r: Vec<i64> = Vec::new();
    let mut i: usize = 0;
    while i < messages.len()
        invariant
            i <= messages.len(),
            r@ == message_ids(messages@).take(i as int),
        decreases messages.len() - i,
    {
        r.push(messages[i].id);
        i = i + 1;
        assert(r@ =~= message_ids(messages@).take(i as int));
    }
    assert(message_ids(messages@).take(messages.len() as int) =~= message_ids(messages@));
    r
}

/// The snapshot working memory starts from when it has none: one focused
/// thread keyed and labelled from the user's words, summarised from the
/// latest turn summary (else the user's words shortened to 96 characters) in
/// 140 characters, referring to the recent messages; the turn's anchors, open
/// loops and constraints; no tool outcomes.
pub open spec fn spec_starter_snapshot(
    request: HydrateWorkingMemoryRequest,
    recent: Seq<ChatMessage>,
    now: Seq<char>,
    limits: WorkingMemoryLimits,
) -> SnapshotView {
    let user = request.user_text@;
    let turn = request.turn_id@;
    let key = spec_derive_thread_key(user);
    let summary = match request.latest_turn_summary {
        Some(t) => t.user_input_summary@,
        None => compact(user, 96),
    };
    let ids = message_ids(recent);
    SnapshotView {
        turn_id: turn,
        created_at: now,
        version: 1,
        focus_thread_key: Some(key),
        threads: seq![
            WorkingThreadView {
                key,
                status: WorkingThreadStatus::Focused,
                topic_label: spec_derive_topic_label(user, summary),
                synopsis: compact(summary, 140),
                last_touched_turn_id: turn,
                last_touched_at: now,
                message_refs: ids,
                durable_memory_ids: Seq::empty(),
                stale_turns: 0,
            },
        ],
        entity_anchors: collected_anchors(turn, user, key),
        open_loops: collected_loops(turn, user, key),
        interaction_constraints: collected_constraints(turn, user, limits.constraint_ttl_turns),
        recent_tool_outcomes: Seq::empty(),
        source_refs: SourceRefsView { message_ids: ids, durable_memory_ids: Seq::empty() },
    }
}

pub fn derive_starter_snapshot_at(
    request: &HydrateWorkingMemoryRequest,
    recent_messages: &[ChatMessage],
    now: &str,
    limits: &WorkingMemoryLimits,
) -> (r: WorkingMemorySnapshot)
    ensures
        r@ == spec_starter_snapshot(*request, recent_messages@, now@, *limits),
{
    let key = derive_thread_key(request.user_text.as_str());
    let summary = match &request.latest_turn_summary {
        Some(t) => t.user_input_summary.clone(),
        None => compact_text(request.user_text.as_str(), 96),
    };
    let ids = ids_of(recent_messages);
    let thread = WorkingThread {
        key: key.clone(),
        status: WorkingThreadStatus::Focused,
        topic_label: derive_topic_label(request.user_text.as_str(), summary.as_str()),
        synopsis: compact_text(summary.as_str(), 140),
        last_touched_turn_id: request.turn_id.clone(),
        last_touched_at: now.to_owned(),
        message_refs: copy_ids(&ids),
        durable_memory_ids: Vec::new(),
        stale_turns: 0,
    };
    let mut threads: Vec<WorkingThread> = Vec::new();
    threads.push(thread);
    let r = WorkingMemorySnapshot {
        turn_id: request.turn_id.clone(),
        created_at: now.to_owned(),
        version: 1,
        focus_thread_key: Some(key.clone()),
        threads,
        entity_anchors: collect_entity_anchors(
            request.turn_id.as_str(),
            request.user_text.as_str(),
            key.as_str(),
        ),
        open_loops: collect_open_loops(
            request.turn_id.as_str(),
            request.user_text.as_str(),
            key.as_str(),
        ),
        interaction_constraints: collect_constraints(
            request.turn_id.as_str(),
            request.user_text.as_str(),
            limits.constraint_ttl_turns,
        ),
        recent_tool_outcomes: Vec::new(),
        source_refs: WorkingMemorySourceRefs { message_ids: ids, durable_memory_ids: Vec::new() },
    };
    assert(r@.threads =~= spec_starter_snapshot(*request, recent_messages@, now@, *limits).threads);
    assert(r@.recent_tool_outcomes =~= Seq::<WorkingToolOutcomeView>::empty());
    assert(r@.source_refs.durable_memory_ids =~= Seq::<i64>::empty());
    r
}

/// The starter snapshot stamped with the current time: what
/// `derive_starter_snapshot_at` gives at whatever instant the clock reported.
pub fn derive_starter_snapshot(
    request: &HydrateWorkingMemoryRequest,
    recent_messages: &[ChatMessage],
    limits: &WorkingMemoryLimits,
) -> (r: WorkingMemorySnapshot)
    ensures
        exists|now: Seq<char>|
            utc_rfc3339_stamp(now) && r@ == #[trigger] spec_starter_snapshot(
                *request,
                recent_messages@,
                now,
                *limits,
            ),
{
    let now = now_rfc3339();
    derive_starter_snapshot_at(request, recent_messages, now.as_str(), limits)
}

/// A thread bridge for each thread other than the focused one: its key, its
/// synopsis shortened to 120 characters, and its status.
pub open spec fn bridged(t: WorkingThreadView) -> bool {
    t.status != WorkingThreadStatus::Focused
}

pub fn thread_bridges(snapshot: &WorkingMemorySnapshot) -> (r: Vec<ThreadBridge>)
    ensures
        r@.len() == kept(snapshot@.threads, |t: WorkingThreadView| bridged(t)).len(),
        forall|i: int|
            0 <= i < r@.len() ==> {
                let t = kept(snapshot@.threads, |t: WorkingThreadView| bridged(t))[i];
                &&& (#[trigger] r@[i]).thread_key@ == t.key
                &&& r@[i].synopsis@ == compact(t.synopsis, 120)
                &&& r@[i].status == t.status
            },
{
    let ghost ts = snapshot@.threads;
    let ghost p = |t: WorkingThreadView| bridged(t);
    let mut r: Vec<ThreadBridge> = Vec::new();
    let mut i: usize = 0;
    while i < snapshot.threads.len()
        invariant
            i <= snapshot.threads.len(),
            ts == snapshot@.threads,
            ts.len() == snapshot.threads.len(),
            p == (|t: WorkingThreadView| bridged(t)),
            r@.len() == kept(ts.take(i as int), p).len(),
            forall|j: int|
                0 <= j < r@.len() ==> {
                    let t = kept(ts.take(i as int), p)[j];
                    &&& (#[trigger] r@[j]).thread_key@ == t.key
                    &&& r@[j].synopsis@ == compact(t.synopsis, 120)
                    &&& r@[j].status == t.status
                },
        decreases snapshot.threads.len() - i,
    {
        proof {
            assert(ts.take(i + 1).drop_last() =~= ts.take(i as int));
            assert(ts.take(i + 1).last() == snapshot.threads@[i as int]@);
        }
        let t = &snapshot.threads[i];
        if t.status != WorkingThreadStatus::Focused {
            r.push(
                ThreadBridge {
                    thread_key: t.key.clone(),
                    synopsis: compact_text(t.synopsis.as_str(), 120),
                    status: t.status,
                },
            );
        }
        i = i + 1;
    }
    assert(ts.take(snapshot.threads.len() as int) =~= ts);
    r
}

/// How many recent messages, warm memories and durable search hits a recall
/// takes: the budget's numbers where it gives them, else twice the context
/// level's turn limit and its semantic limit; recent messages
/// are capped per turn, and cold candidates add two search hits (saturating).
pub open spec fn spec_recall_limits(
    budget: RecallBudget,
    level: ContextLevel,
    max_recent_messages_per_turn: usize,
) -> (usize, usize, usize) {
    let recent = match budget.max_recent_messages {
        Some(n) => n,
        None => (level.spec_recent_turn_limit() * 2) as usize,
    };
    let recent = if recent < max_recent_messages_per_turn {
        recent
    } else {
        max_recent_messages_per_turn
    };
    let warm = match budget.max_durable_memories {
        Some(n) => n,
        None => level.spec_semantic_limit(),
    };
    let durable = if budget.include_cold_candidates {
        warm.saturating_add(2)
    } else {
        warm
    };
    (recent, warm, durable)
}

pub fn recall_limits(
    budget: &RecallBudget,
    level: ContextLevel,
    max_recent_messages_per_turn: usize,
) -> (r: (usize, usize, usize))
    ensures
        r == spec_recall_limits(*budget, level, max_recent_messages_per_turn),
{
    let recent = match budget.max_recent_messages {
        Some(n) => n,
        None => level.recent_turn_limit() * 2,
    };
    let recent = if recent < max_recent_messages_per_turn {
        recent
    } else {
        max_recent_messages_per_turn
    };
    let warm = match budget.max_durable_memories {
        Some(n) => n,
        None => level.semantic_limit(),
    };
    let durable = if budget.include_cold_candidates {
        warm.saturating_add(2)
    } else {
        warm
    };
    (recent, warm, durable)
}

/// Recall reads a thread's own messages and memories when the turn stays on
/// it, returns to it, or answers its open loop.
pub fn uses_thread_context(mode: ContinuityMode) -> (r: bool)
    ensures
        r == (mode == ContinuityMode::OnThread || mode == ContinuityMode::Return || mode
            == ContinuityMode::OpenLoop),
{
    match mode {
        ContinuityMode::OnThread | ContinuityMode::Return | ContinuityMode::OpenLoop => true,
        _ => false,
    }
}

/// A recall drew on memory when it brought durable memories, bridges to other
/// threads or messages of the matched thread, or matched an open loop.
pub fn recall_used_memory(
    warm_memories: usize,
    thread_bridges: usize,
    thread_messages: usize,
    open_loop_match: bool,
) -> (r: bool)
    ensures
        r == (warm_memories > 0 || thread_bridges > 0 || thread_messages > 0 || open_loop_match),
{
    warm_memories > 0 || thread_bridges > 0 || thread_messages > 0 || open_loop_match
}

// ---------------------------------------------------------------------------
// Merging what recall found
// ---------------------------------------------------------------------------

fn contains_id(ids: &Vec<i64>, id: i64) -> (r: bool)
    ensures
        r == ids@.contains(id),
{
    let mut i: usize = 0;
    while i < ids.len()
        invariant
            i <= ids.len(),
            forall|j: int| 0 <= j < i ==> ids@[j] != id,
        decreases ids.len() - i,
    {
        if ids[i] == id {
            assert(ids@[i as int] == id);
            return true;
        }
        i = i + 1;
    }
    false
}

fn contains_text(texts: &Vec<Vec<char>>, text: &Vec<char>) -> (r: bool)
    ensures
        r == seqs_of(texts@).contains(text@),
{
    let mut i: usize = 0;
    while i < texts.len()
        invariant
            i <= texts.len(),
            forall|j: int| 0 <= j < i ==> seqs_of(texts@)[j] != text@,
        decreases texts.len() - i,
    {
        assert(seqs_of(texts@)[i as int] == texts@[i as int]@);
        if chars_eq(&texts[i], text) {
            return true;
        }
        i = i + 1;
    }
    false
}

/// The last `n` items, or all where there are fewer.
pub open spec fn last_n<A>(s: Seq<A>, n: int) -> Seq<A> {
    if s.len() > n {
        s.skip(s.len() - n)
    } else {
        s
    }
}

/// Going through `rest`, each message whose id is not yet kept is kept; the
/// merge stops once `limit` messages are kept (after at least one item).
pub open spec fn merge_messages_from(acc: Seq<ChatMessage>, rest: Seq<ChatMessage>, limit: int) -> Seq<
    ChatMessage,
>
    decreases rest.len(),
{
    if rest.len() == 0 {
        acc
    } else {
        let next = if message_ids(acc).contains(rest[0].id) {
            acc
        } else {
            acc.push(rest[0])
        };
        if next.len() >= limit {
            next
        } else {
            merge_messages_from(next, rest.drop_first(), limit)
        }
    }
}

pub open spec fn id_after_flags(sorted: Seq<ChatMessage>, x: ChatMessage) -> Seq<bool> {
    sorted.map_values(|e: ChatMessage| e.id > x.id)
}

/// The messages stably sorted by id.
pub open spec fn sorted_by_id(s: Seq<ChatMessage>) -> Seq<ChatMessage>
    decreases s.len(),
{
    if s.len() == 0 {
        s
    } else {
        let r = sorted_by_id(s.drop_last());
        let pos = match first_index(id_after_flags(r, s.last())) {
            Some(j) => j,
            None => r.len() as int,
        };
        r.insert(pos, s.last())
    }
}

/// The recent messages for a turn: the thread's own (at most the smaller of
/// `recent_limit` and `max_recent_messages_per_turn`, the latest ones) and
/// then the fallback ones, each id once, until `recent_limit` are kept;
/// ordered by id.
pub open spec fn spec_merge_recent_messages(
    thread_messages: Seq<ChatMessage>,
    fallback: Seq<ChatMessage>,
    recent_limit: usize,
    max_recent_messages_per_turn: usize,
) -> Seq<ChatMessage> {
    let cap = if recent_limit < max_recent_messages_per_turn {
        recent_limit
    } else {
        max_recent_messages_per_turn
    };
    sorted_by_id(
        merge_messages_from(
            Seq::empty(),
            last_n(thread_messages, cap as int) + fallback,
            recent_limit as int,
        ),
    )
}

fn sort_by_id(v: Vec<ChatMessage>) -> (r: Vec<ChatMessage>)
    ensures
        r@ == sorted_by_id(v@),
{
    let mut out: Vec<ChatMessage> = Vec::new();
    let mut i: usize = 0;
    while i < v.len()
        invariant
            i <= v.len(),
            out@ == sorted_by_id(v@.take(i as int)),
        decreases v.len() - i,
    {
        let x = v[i].duplicate();
        let ghost flags = id_after_flags(out@, x);
        let mut j: usize = 0;
        while j < out.len()
            invariant
                j <= out.len(),
                flags == id_after_flags(out@, x),
                forall|k: int| 0 <= k < j ==> !flags[k],
            ensures
                j < out.len() ==> flags[j as int],
            decreases out.len() - j,
        {
            if out[j].id > x.id {
                break;
            }
            j = j + 1;
        }
        proof {
            if j < out.len() {
                lemma_first_index(flags, j as int);
            } else {
                lemma_first_index_none(flags);
            }
            assert(v@.take(i + 1).drop_last() =~= v@.take(i as int));
            assert(v@.take(i + 1).last() == x);
        }
        out.insert(j, x);
        i = i + 1;
    }
    assert(v@.take(v.len() as int) =~= v@);
    out
}

pub fn merge_recent_messages(
    thread_messages: Vec<ChatMessage>,
    fallback_recent_messages: Vec<ChatMessage>,
    recent_limit: usize,
    max_recent_messages_per_turn: usize,
) -> (r: Vec<ChatMessage>)
    ensures
        r@ == spec_merge_recent_messages(
            thread_messages@,
            fallback_recent_messages@,
            recent_limit,
            max_recent_messages_per_turn,
        ),
{
    let cap = if recent_limit < max_recent_messages_per_turn {
        recent_limit
    } else {
        max_recent_messages_per_turn
    };
    let start = if thread_messages.len() > cap {
        thread_messages.len() - cap
    } else {
        0
    };
    let mut items: Vec<ChatMessage> = Vec::new();
    let mut k: usize = start;
    while k < thread_messages.len()
        invariant
            start <= k <= thread_messages.len(),
            items@ == thread_messages@.subrange(start as int, k as int),
        decreases thread_messages.len() - k,
    {
        items.push(thread_messages[k].duplicate());
        k = k + 1;
        assert(items@ =~= thread_messages@.subrange(start as int, k as int));
    }
    let ghost head = items@;
    let mut k: usize = 0;
    while k < fallback_recent_messages.len()
        invariant
            k <= fallback_recent_messages.len(),
            items@ == head + fallback_recent_messages@.take(k as int),
        decreases fallback_recent_messages.len() - k,
    {
        items.push(fallback_recent_messages[k].duplicate());
        k = k + 1;
        assert(items@ =~= head + fallback_recent_messages@.take(k as int));
    }
    assert(fallback_recent_messages@.take(fallback_recent_messages.len() as int) =~= fallback_recent_messages@);
    assert(head =~= last_n(thread_messages@, cap as int));
    let ghost all = items@;
    let ghost goal = merge_messages_from(Seq::empty(), all, recent_limit as int);
    let mut merged: Vec<ChatMessage> = Vec::new();
    let mut ids: Vec<i64> = Vec::new();
    let mut done = false;
    let mut i: usize = 0;
    assert(all.skip(0) =~= all);
    while i < items.len() && !done
        invariant
            i <= items.len(),
            all == items@,
            ids@ == message_ids(merged@),
            done ==> merged@ == goal,
            !done ==> merge_messages_from(merged@, all.skip(i as int), recent_limit as int) == goal,
        decreases items.len() - i,
    {
        let m = &items[i];
        assert(all.skip(i as int)[0] == *m);
        assert(all.skip(i as int).drop_first() =~= all.skip(i + 1));
        if !contains_id(&ids, m.id) {
            merged.push(m.duplicate());
            ids.push(m.id);
            assert(ids@ =~= message_ids(merged@));
        }
        i = i + 1;
        if merged.len() >= recent_limit {
            done = true;
        }
    }
    proof {
        if !done {
            assert(all.skip(i as int) =~= Seq::<ChatMessage>::empty());
        }
    }
    sort_by_id(merged)
}

/// What recall knows of a durable memory when merging: its id, its text and
/// its canonical key.
#[derive(Debug, Clone)]
pub struct DurableMemoryRef {
    pub id: i64,
    pub text: String,
    pub canonical_key: Option<String>,
}

/// What a merge of durable memories has seen and kept so far.
pub struct DurableMergeState {
    pub ids: Seq<i64>,
    pub texts: Seq<Seq<char>>,
    pub keys: Seq<Seq<char>>,
    pub kept: Seq<int>,
}

/// One memory in the merge: a repeated id is skipped; otherwise its
/// normalised text (where not empty) and its canonical key are recorded, and
/// it is kept unless either had been seen before.
pub open spec fn durable_step(st: DurableMergeState, item: DurableMemoryRef, index: int) -> DurableMergeState {
    if st.ids.contains(item.id) {
        st
    } else {
        let norm = spec_normalize_memory_text(item.text@);
        let duplicate_text = norm.len() > 0 && st.texts.contains(norm);
        let texts = if norm.len() > 0 && !duplicate_text {
            st.texts.push(norm)
        } else {
            st.texts
        };
        let duplicate_key = match item.canonical_key {
            Some(k) => st.keys.contains(k@),
            None => false,
        };
        let keys = match item.canonical_key {
            Some(k) => if duplicate_key {
                st.keys
            } else {
                st.keys.push(k@)
            },
            None => st.keys,
        };
        DurableMergeState {
            ids: st.ids.push(item.id),
            texts,
            keys,
            kept: if duplicate_text || duplicate_key {
                st.kept
            } else {
                st.kept.push(index)
            },
        }
    }
}

/// The merge from position `i` on; it stops once a kept memory brings the
/// count to `limit`.
pub open spec fn merge_durable_from(items: Seq<DurableMemoryRef>, i: int, st: DurableMergeState, limit: int) -> DurableMergeState
    decreases items.len() - i,
{
    if i < 0 || i >= items.len() {
        st
    } else {
        let next = durable_step(st, items[i], i);
        if next.kept.len() > st.kept.len() && next.kept.len() >= limit {
            next
        } else {
            merge_durable_from(items, i + 1, next, limit)
        }
    }
}

/// The positions of the memories kept when the prioritised ones and then the
/// search hits (`items`, in that order) are merged for a warm context of
/// `warm_limit` memories.
pub open spec fn spec_merge_durable_memories(items: Seq<DurableMemoryRef>, warm_limit: usize) -> Seq<int> {
    merge_durable_from(
        items,
        0,
        DurableMergeState { ids: Seq::empty(), texts: Seq::empty(), keys: Seq::empty(), kept: Seq::empty() },
        warm_limit as int,
    ).kept
}

pub fn merge_durable_memories(items: &Vec<DurableMemoryRef>, warm_limit: usize) -> (r: Vec<usize>)
    ensures
        r@.map_values(|i: usize| i as int) == spec_merge_durable_memories(items@, warm_limit),
{
    let ghost goal = merge_durable_from(
        items@,
        0,
        DurableMergeState { ids: Seq::empty(), texts: Seq::empty(), keys: Seq::empty(), kept: Seq::empty() },
        warm_limit as int,
    );
    let mut ids: Vec<i64> = Vec::new();
    let mut texts: Vec<Vec<char>> = Vec::new();
    let mut keys: Vec<Vec<char>> = Vec::new();
    let mut kept: Vec<usize> = Vec::new();
    let mut done = false;
    let mut i: usize = 0;
    assert(seqs_of(texts@) =~= Seq::<Seq<char>>::empty());
    assert(seqs_of(keys@) =~= Seq::<Seq<char>>::empty());
    assert(kept@.map_values(|k: usize| k as int) =~= Seq::<int>::empty());
    assert(ids@ =~= Seq::<i64>::empty());
    while i < items.len() && !done
        invariant
            i <= items.len(),
            done ==> kept@.map_values(|k: usize| k as int) == goal.kept,
            !done ==> merge_durable_from(
                items@,
                i as int,
                DurableMergeState {
                    ids: ids@,
                    texts: seqs_of(texts@),
                    keys: seqs_of(keys@),
                    kept: kept@.map_values(|k: usize| k as int),
                },
                warm_limit as int,
            ) == goal,
        decreases items.len() - i,
    {
        let ghost st = DurableMergeState {
            ids: ids@,
            texts: seqs_of(texts@),
            keys: seqs_of(keys@),
            kept: kept@.map_values(|k: usize| k as int),
        };
        let ghost next = durable_step(st, items@[i as int], i as int);
        let item = &items[i];
        if !contains_id(&ids, item.id) {
            ids.push(item.id);
            let norm = chars_of(normalize_memory_text(item.text.as_str()).as_str());
            let mut duplicate_text = false;
            if norm.len() > 0 {
                if contains_text(&texts, &norm) {
                    duplicate_text = true;
                } else {
                    texts.push(norm);
                    assert(seqs_of(texts@) =~= st.texts.push(spec_normalize_memory_text(item.text@)));
                }
            }
            let mut duplicate_key = false;
            match &item.canonical_key {
                Some(k) => {
                    let kc = chars_of(k.as_str());
                    if contains_text(&keys, &kc) {
                        duplicate_key = true;
                    } else {
                        keys.push(kc);
                        assert(seqs_of(keys@) =~= st.keys.push(k@));
                    }
                },
                None => {},
            }
            if !duplicate_text && !duplicate_key {
                kept.push(i);
                assert(kept@.map_values(|k: usize| k as int) =~= st.kept.push(i as int));
            }
            assert(ids@ == next.ids);
            assert(seqs_of(texts@) == next.texts);
            assert(seqs_of(keys@) == next.keys);
            assert(kept@.map_values(|k: usize| k as int) == next.kept);
            if !duplicate_text && !duplicate_key && kept.len() >= warm_limit {
                done = true;
            }
        }
        i = i + 1;
    }
    kept
}

/// The search hits not already warm, at most `count` of them, by position.
pub open spec fn spec_cold_candidates(hit_ids: Seq<i64>, warm_ids: Seq<i64>, count: usize) -> Seq<int> {
    take_at_most(
        kept(Seq::new(hit_ids.len(), |i: int| i), |i: int| !warm_ids.contains(hit_ids[i])),
        count as int,
    )
}

pub fn cold_candidates(hit_ids: &Vec<i64>, warm_ids: &Vec<i64>, count: usize) -> (r: Vec<usize>)
    ensures
        r@.map_values(|i: usize| i as int) == spec_cold_candidates(hit_ids@, warm_ids@, count),
{
    let ghost positions = Seq::new(hit_ids@.len(), |i: int| i);
    let ghost p = |i: int| !warm_ids@.contains(hit_ids@[i]);
    let mut r: Vec<usize> = Vec::new();
    let mut i: usize = 0;
    while i < hit_ids.len()
        invariant
            i <= hit_ids.len(),
            positions == Seq::new(hit_ids@.len(), |i: int| i),
            p == (|i: int| !warm_ids@.contains(hit_ids@[i])),
            r@.map_values(|k: usize| k as int) == kept(positions.take(i as int), p),
        decreases hit_ids.len() - i,
    {
        proof {
            assert(positions.take(i + 1).drop_last() =~= positions.take(i as int));
            assert(positions.take(i + 1).last() == i as int);
        }
        if !contains_id(warm_ids, hit_ids[i]) {
            r.push(i);
        }
        i = i + 1;
        assert(r@.map_values(|k: usize| k as int) =~= kept(positions.take(i as int), p));
    }
    assert(positions.take(hit_ids.len() as int) =~= positions);
    r.truncate(count);
    assert(r@.map_values(|k: usize| k as int) =~= take_at_most(kept(positions, p), count as int));
    r
}

/// Ids strictly increasing.
pub open spec fn increasing_ids(s: Seq<ChatMessage>) -> bool {
    forall|i: int, j: int| 0 <= i < j < s.len() ==> s[i].id < s[j].id
}

/// No id twice.
pub open spec fn distinct_ids(s: Seq<ChatMessage>) -> bool {
    forall|i: int, j: int| 0 <= i < j < s.len() ==> s[i].id != s[j].id
}

proof fn lemma_merge_messages_distinct(acc: Seq<ChatMessage>, rest: Seq<ChatMessage>, limit: int)
    requires
        distinct_ids(acc),
    ensures
        distinct_ids(merge_messages_from(acc, rest, limit)),
    decreases rest.len(),
{
    if rest.len() > 0 {
        let next = if message_ids(acc).contains(rest[0].id) {
            acc
        } else {
            acc.push(rest[0])
        };
        if !message_ids(acc).contains(rest[0].id) {
            assert forall|i: int, j: int| 0 <= i < j < next.len() implies next[i].id != next[j].id by {
                if j == acc.len() {
                    assert(message_ids(acc)[i] == acc[i].id);
                }
            }
        }
        lemma_merge_messages_distinct(next, rest.drop_first(), limit);
    }
}

/// Inserting the last message into an ordering of the others keeps every
/// message one of the given ones.
#[verifier::spinoff_prover]
proof fn lemma_id_insert_members(s: Seq<ChatMessage>, r: Seq<ChatMessage>, pos: int)
    requires
        s.len() > 0,
        r.len() == s.len() - 1,
        0 <= pos <= r.len(),
        forall|j: int| 0 <= j < r.len() ==> s.drop_last().contains(#[trigger] r[j]),
    ensures
        forall|j: int| 0 <= j < s.len() ==> s.contains(#[trigger] r.insert(pos, s.last())[j]),
{
    let d = s.drop_last();
    let x = s.last();
    let out = r.insert(pos, x);
    assert forall|j: int| 0 <= j < s.len() implies s.contains(#[trigger] out[j]) by {
        if j < pos {
            assert(out[j] == r[j]);
            let k = choose|k: int| 0 <= k < d.len() && d[k] == r[j];
            assert(s[k] == r[j]);
        } else if j == pos {
            assert(s[s.len() - 1] == x);
        } else {
            assert(out[j] == r[j - 1]);
            let k = choose|k: int| 0 <= k < d.len() && d[k] == r[j - 1];
            assert(s[k] == r[j - 1]);
        }
    }
}

/// Inserting a message with a new id before the first larger id keeps the
/// ids increasing.
#[verifier::spinoff_prover]
proof fn lemma_id_insert_increasing(r: Seq<ChatMessage>, x: ChatMessage, pos: int)
    requires
        increasing_ids(r),
        0 <= pos <= r.len(),
        forall|k: int| 0 <= k < r.len() ==> #[trigger] r[k].id != x.id,
        forall|k: int| 0 <= k < pos ==> !(#[trigger] r[k].id > x.id),
        pos < r.len() ==> r[pos].id > x.id,
    ensures
        increasing_ids(r.insert(pos, x)),
{
    let out = r.insert(pos, x);
    assert forall|i: int, j: int| 0 <= i < j < out.len() implies out[i].id < out[j].id by {
        if j < pos {
            assert(out[i] == r[i] && out[j] == r[j]);
        } else if j == pos {
            assert(out[i] == r[i]);
            assert(!(r[i].id > x.id));
            assert(r[i].id != x.id);
        } else if i < pos {
            assert(out[i] == r[i]);
            assert(out[j] == r[j - 1]);
            assert(!(r[i].id > x.id));
            assert(r[i].id != x.id);
            assert(r[pos].id > x.id);
            if j - 1 > pos {
                assert(r[pos].id < r[j - 1].id);
            }
        } else if i == pos {
            assert(out[j] == r[j - 1]);
            assert(r[pos].id > x.id);
            if j - 1 > pos {
                assert(r[pos].id < r[j - 1].id);
            }
        } else {
            assert(out[i] == r[i - 1] && out[j] == r[j - 1]);
        }
    }
}

#[verifier::spinoff_prover]
proof fn lemma_sorted_by_id(s: Seq<ChatMessage>)
    requires
        distinct_ids(s),
    ensures
        sorted_by_id(s).len() == s.len(),
        forall|j: int| 0 <= j < s.len() ==> s.contains(#[trigger] sorted_by_id(s)[j]),
        increasing_ids(sorted_by_id(s)),
    decreases s.len(),
{
    if s.len() > 0 {
        let d = s.drop_last();
        let x = s.last();
        assert(distinct_ids(d));
        lemma_sorted_by_id(d);
        let r = sorted_by_id(d);
        let flags = id_after_flags(r, x);
        lemma_first_index_spec(flags);
        let pos = match first_index(flags) {
            Some(j) => j,
            None => r.len() as int,
        };
        assert(sorted_by_id(s) == r.insert(pos, x));
        lemma_id_insert_members(s, r, pos);
        assert forall|k: int| 0 <= k < r.len() implies #[trigger] r[k].id != x.id by {
            let m = choose|m: int| 0 <= m < d.len() && d[m] == r[k];
            assert(s[m] == r[k]);
            assert(s[s.len() - 1] == x);
        }
        assert forall|k: int| 0 <= k < pos implies !(#[trigger] r[k].id > x.id) by {
            assert(!flags[k]);
        }
        if pos < r.len() {
            assert(flags[pos]);
        }
        lemma_id_insert_increasing(r, x, pos);
    }
}

/// The recent messages merged for a turn are in increasing id order, so no
/// id comes twice.
pub proof fn lemma_merged_messages_increase(
    thread_messages: Seq<ChatMessage>,
    fallback: Seq<ChatMessage>,
    recent_limit: usize,
    max_recent_messages_per_turn: usize,
)
    ensures
        increasing_ids(
            spec_merge_recent_messages(
                thread_messages,
                fallback,
                recent_limit,
                max_recent_messages_per_turn,
            ),
        ),
{
    let cap = if recent_limit < max_recent_messages_per_turn {
        recent_limit
    } else {
        max_recent_messages_per_turn
    };
    let items = last_n(thread_messages, cap as int) + fallback;
    lemma_merge_messages_distinct(Seq::empty(), items, recent_limit as int);
    lemma_sorted_by_id(merge_messages_from(Seq::empty(), items, recent_limit as int));
}

} // verus!
