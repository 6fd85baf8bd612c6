use rust_core::conversation::{ChatMessage, ContextLevel, InputSource, MessageContentType};
use rust_core::memory::types::{
    ContinuityMode, EntityAnchor, HydrateWorkingMemoryRequest, InteractionConstraint, OpenLoop,
    RecallBudget, RefreshWorkingMemoryRequest, WorkingMemorySnapshot, WorkingMemorySourceRefs,
    WorkingThread, WorkingThreadStatus, WorkingToolOutcome,
};
use rust_core::text::str_lt;
use rust_core::memory::working::{
    age_snapshot, cold_candidates, derive_starter_snapshot_at, focused_thread,
    merge_durable_memories, merge_recent_messages, prune_snapshot, recall_limits, recall_used_memory,
    refresh_working_memory_at, starter_snapshot_for_turn, thread_bridges,
    uses_thread_context, DurableMemoryRef, WorkingMemoryLimits,
};

fn empty_refs() -> WorkingMemorySourceRefs {
    WorkingMemorySourceRefs { message_ids: vec![], durable_memory_ids: vec![] }
}

fn thread(key: &str, status: WorkingThreadStatus, stale: u32, touched_at: &str) -> WorkingThread {
    WorkingThread {
        key: key.to_owned(),
        status,
        topic_label: key.to_owned(),
        synopsis: format!("About {key}."),
        last_touched_turn_id: "turn-1".to_owned(),
        last_touched_at: touched_at.to_owned(),
        message_refs: vec![],
        durable_memory_ids: vec![],
        stale_turns: stale,
    }
}

fn snapshot_with(threads: Vec<WorkingThread>, focus: Option<&str>) -> WorkingMemorySnapshot {
    WorkingMemorySnapshot {
        turn_id: "turn-1".to_owned(),
        created_at: "2026-03-15T10:00:00Z".to_owned(),
        version: 1,
        focus_thread_key: focus.map(|k| k.to_owned()),
        threads,
        entity_anchors: vec![],
        open_loops: vec![],
        interaction_constraints: vec![],
        recent_tool_outcomes: vec![],
        source_refs: empty_refs(),
    }
}

fn message(id: i64) -> ChatMessage {
    ChatMessage {
        id,
        role: "user".to_owned(),
        content: format!("message {id}"),
        turn_id: format!("turn-{id}"),
        input_source: InputSource::Text,
        created_at: "2026-03-13T00:00:00Z".to_owned(),
        content_type: MessageContentType::PlainText,
        display_json: None,
        visible_summary: None,
    }
}

fn refresh_request(
    turn_id: &str,
    user_text: &str,
    assistant_text: &str,
    current_ids: Vec<i64>,
    previous: WorkingMemorySnapshot,
) -> RefreshWorkingMemoryRequest {
    RefreshWorkingMemoryRequest {
        turn_id: turn_id.to_owned(),
        user_text: user_text.to_owned(),
        assistant_visible_text: assistant_text.to_owned(),
        tool_summary: None,
        current_turn_message_ids: current_ids,
        selected_message_ids: vec![],
        selected_memory_ids: vec![],
        refs_used: empty_refs(),
        recalled_snapshot: previous.clone(),
        previous_snapshot: Some(previous),
    }
}

// The continuity these turns resolve to is given: the first turn shares no
// topic token with the memory thread (a pivot), the second names it again
// (a return to `thread:memory`).
#[test]
fn refresh_working_memory_creates_new_thread_on_clear_pivot_and_reactivates_prior_topic() {
    let limits = WorkingMemoryLimits::standard();
    let starter = WorkingMemorySnapshot {
        turn_id: "turn-1".to_owned(),
        created_at: "2026-03-15T10:00:00Z".to_owned(),
        version: 1,
        focus_thread_key: Some("thread:memory".to_owned()),
        threads: vec![WorkingThread {
            key: "thread:memory".to_owned(),
            status: WorkingThreadStatus::Focused,
            topic_label: "memory design hot state".to_owned(),
            synopsis: "We are discussing memory design and hot state.".to_owned(),
            last_touched_turn_id: "turn-1".to_owned(),
            last_touched_at: "2026-03-15T10:00:00Z".to_owned(),
            message_refs: vec![],
            durable_memory_ids: vec![],
            stale_turns: 0,
        }],
        entity_anchors: vec![EntityAnchor {
            key: "entity:memory".to_owned(),
            label: "memory".to_owned(),
            kind: "topic_token".to_owned(),
            thread_key: "thread:memory".to_owned(),
            last_seen_turn_id: "turn-1".to_owned(),
            stale_turns: 0,
        }],
        open_loops: vec![],
        interaction_constraints: vec![],
        recent_tool_outcomes: vec![],
        source_refs: empty_refs(),
    };

    let pivoted = refresh_working_memory_at(
        &refresh_request(
            "turn-2",
            "Let's switch to gardening soil moisture now.",
            "We can map the watering schedule next.",
            vec![21, 22],
            starter,
        ),
        ContinuityMode::Pivot,
        &None,
        "2026-03-15T10:05:00Z",
        &limits,
    );
    assert_eq!(pivoted.threads[0].status, WorkingThreadStatus::Focused);
    assert!(pivoted.threads.iter().any(|thread| thread.status == WorkingThreadStatus::Cooling));

    let returned = refresh_working_memory_at(
        &refresh_request(
            "turn-3",
            "Back to memory design and hot state.",
            "We can return to the memory thread.",
            vec![31, 32],
            pivoted,
        ),
        ContinuityMode::Return,
        &Some("thread:memory".to_owned()),
        "2026-03-15T10:10:00Z",
        &limits,
    );
    assert_eq!(returned.focus_thread_key.as_deref(), Some("thread:memory"));
    assert!(returned.threads.len() <= limits.max_threads);
}

#[test]
fn refresh_on_pivot_opens_a_thread_keyed_from_the_user_words() {
    let limits = WorkingMemoryLimits::standard();
    let previous = snapshot_with(
        vec![thread("thread:memory", WorkingThreadStatus::Focused, 0, "2026-03-15T10:00:00Z")],
        Some("thread:memory"),
    );
    let mut request = refresh_request(
        "turn-2",
        "Let's switch to gardening soil moisture now?",
        "We can map the watering schedule next.",
        vec![21, 22],
        previous,
    );
    request.selected_message_ids = vec![20, 21];
    request.tool_summary = Some("  Watered the   plants. ".to_owned());
    let refreshed =
        refresh_working_memory_at(&request, ContinuityMode::Pivot, &None, "2026-03-15T10:05:00Z", &limits);
    let key = "thread:let_switch_gardening_soil";
    assert_eq!(refreshed.focus_thread_key.as_deref(), Some(key));
    assert_eq!(refreshed.turn_id, "turn-2");
    assert_eq!(refreshed.created_at, "2026-03-15T10:05:00Z");
    assert_eq!(refreshed.version, 1);
    assert_eq!(refreshed.threads.len(), 2);
    let opened = &refreshed.threads[0];
    assert_eq!(opened.key, key);
    assert_eq!(opened.topic_label, "let switch gardening soil moisture now");
    assert_eq!(
        opened.synopsis,
        "Let's switch to gardening soil moisture now? We can map the watering schedule next."
    );
    assert_eq!(opened.message_refs, vec![20, 21, 22]);
    assert_eq!(opened.stale_turns, 0);
    let memory = &refreshed.threads[1];
    assert_eq!(memory.key, "thread:memory");
    assert_eq!(memory.status, WorkingThreadStatus::Cooling);
    assert_eq!(memory.stale_turns, 1);
    assert_eq!(refreshed.entity_anchors.len(), 3);
    assert_eq!(refreshed.entity_anchors[0].key, "entity:let");
    assert_eq!(refreshed.entity_anchors[0].thread_key, key);
    assert_eq!(refreshed.open_loops.len(), 1);
    assert_eq!(refreshed.open_loops[0].key, format!("loop:{key}"));
    assert_eq!(refreshed.recent_tool_outcomes.len(), 1);
    assert_eq!(refreshed.recent_tool_outcomes[0].summary, "Watered the plants.");
    assert_eq!(refreshed.recent_tool_outcomes[0].thread_key, key);
}

#[test]
fn refresh_continuing_a_thread_touches_it_and_cools_the_rest() {
    let limits = WorkingMemoryLimits::standard();
    let mut memory = thread("thread:memory", WorkingThreadStatus::Cooling, 3, "2026-03-15T09:00:00Z");
    memory.message_refs = vec![5, 6];
    memory.topic_label = "memory design".to_owned();
    let previous = snapshot_with(
        vec![
            thread("thread:garden", WorkingThreadStatus::Focused, 0, "2026-03-15T10:00:00Z"),
            memory,
        ],
        Some("thread:garden"),
    );
    let mut request = refresh_request("turn-5", "ok so?", "Next we wire the cache.", vec![6, 7], previous);
    request.selected_message_ids = vec![5];
    request.selected_memory_ids = vec![40];
    let refreshed = refresh_working_memory_at(
        &request,
        ContinuityMode::OnThread,
        &Some("thread:memory".to_owned()),
        "2026-03-15T10:20:00Z",
        &limits,
    );
    assert_eq!(refreshed.focus_thread_key.as_deref(), Some("thread:memory"));
    let touched = &refreshed.threads[0];
    assert_eq!(touched.key, "thread:memory");
    assert_eq!(touched.status, WorkingThreadStatus::Focused);
    // "ok so?" has no significant token, so the label stays
    assert_eq!(touched.topic_label, "memory design");
    assert_eq!(touched.message_refs, vec![5, 6, 7]);
    assert_eq!(touched.durable_memory_ids, vec![40]);
    assert_eq!(touched.last_touched_at, "2026-03-15T10:20:00Z");
    assert_eq!(touched.stale_turns, 0);
    assert_eq!(refreshed.threads[1].key, "thread:garden");
    assert_eq!(refreshed.threads[1].status, WorkingThreadStatus::Cooling);
    assert_eq!(refreshed.open_loops[0].key, "loop:thread:memory");
}

#[test]
fn refresh_with_an_unknown_matched_thread_opens_a_new_one() {
    let limits = WorkingMemoryLimits::standard();
    let previous = snapshot_with(
        vec![thread("thread:memory", WorkingThreadStatus::Focused, 0, "2026-03-15T10:00:00Z")],
        Some("thread:memory"),
    );
    let request = refresh_request("turn-2", "Brief answer about compilers please", "Sure.", vec![], previous);
    let refreshed = refresh_working_memory_at(
        &request,
        ContinuityMode::Return,
        &Some("thread:missing".to_owned()),
        "t",
        &limits,
    );
    assert_eq!(refreshed.focus_thread_key.as_deref(), Some("thread:brief_answer_compilers_please"));
    assert_eq!(refreshed.interaction_constraints.len(), 1);
    assert_eq!(refreshed.interaction_constraints[0].key, "constraint:brevity");
    assert_eq!(refreshed.interaction_constraints[0].expires_after_turns, 2);
}

#[test]
fn age_snapshot_grows_staleness_and_unfocuses() {
    let mut snapshot = snapshot_with(
        vec![
            thread("a", WorkingThreadStatus::Focused, 0, "t"),
            thread("b", WorkingThreadStatus::Cooling, u32::MAX, "t"),
        ],
        Some("a"),
    );
    snapshot.open_loops.push(OpenLoop {
        key: "loop:a".to_owned(),
        label: "why?".to_owned(),
        thread_key: "a".to_owned(),
        opened_turn_id: "turn-1".to_owned(),
        last_touched_turn_id: "turn-1".to_owned(),
        expires_after_turns: 4,
        stale_turns: 2,
    });
    age_snapshot(&mut snapshot);
    assert_eq!(snapshot.threads[0].status, WorkingThreadStatus::Active);
    assert_eq!(snapshot.threads[0].stale_turns, 1);
    assert_eq!(snapshot.threads[1].status, WorkingThreadStatus::Cooling);
    assert_eq!(snapshot.threads[1].stale_turns, u32::MAX);
    assert_eq!(snapshot.open_loops[0].stale_turns, 3);
    assert_eq!(snapshot.focus_thread_key.as_deref(), Some("a"));
}

#[test]
fn prune_snapshot_orders_cuts_and_refocuses() {
    let limits = WorkingMemoryLimits::standard();
    let mut snapshot = snapshot_with(
        vec![
            thread("cold", WorkingThreadStatus::Cooling, 6, "2026-03-15T10:00:00Z"),
            thread("cool-old", WorkingThreadStatus::Cooling, 1, "2026-03-15T08:00:00Z"),
            thread("cool-new", WorkingThreadStatus::Cooling, 1, "2026-03-15T09:00:00Z"),
            thread("active", WorkingThreadStatus::Active, 2, "2026-03-15T07:00:00Z"),
            thread("focus", WorkingThreadStatus::Focused, 0, "2026-03-15T06:00:00Z"),
        ],
        Some("cold"),
    );
    snapshot.interaction_constraints.push(InteractionConstraint {
        key: "constraint:brevity".to_owned(),
        text: "Keep responses brief.".to_owned(),
        source: "user_text".to_owned(),
        last_confirmed_turn_id: "turn-1".to_owned(),
        expires_after_turns: 2,
        stale_turns: 2,
    });
    snapshot.recent_tool_outcomes.push(WorkingToolOutcome {
        tool_name: "tool".to_owned(),
        action: "summary".to_owned(),
        summary: "done".to_owned(),
        turn_id: "turn-1".to_owned(),
        created_at: "t".to_owned(),
        thread_key: "focus".to_owned(),
        stale_turns: 1,
    });
    prune_snapshot(&mut snapshot, &limits);
    let keys: Vec<&str> = snapshot.threads.iter().map(|t| t.key.as_str()).collect();
    assert_eq!(keys, vec!["focus", "active", "cool-new"]);
    assert_eq!(snapshot.focus_thread_key.as_deref(), Some("focus"));
    assert!(snapshot.interaction_constraints.is_empty());
    assert_eq!(snapshot.recent_tool_outcomes.len(), 1);
}

#[test]
fn prune_snapshot_without_focused_thread_focuses_the_first() {
    let limits = WorkingMemoryLimits::standard();
    let mut snapshot = snapshot_with(
        vec![
            thread("b", WorkingThreadStatus::Cooling, 2, "t"),
            thread("a", WorkingThreadStatus::Active, 2, "t"),
        ],
        None,
    );
    prune_snapshot(&mut snapshot, &limits);
    assert_eq!(snapshot.focus_thread_key.as_deref(), Some("a"));
    let mut empty = snapshot_with(vec![], Some("gone"));
    prune_snapshot(&mut empty, &limits);
    assert_eq!(empty.focus_thread_key, None);
}

#[test]
fn focused_thread_prefers_named_then_focused_then_first() {
    let snapshot = snapshot_with(
        vec![
            thread("a", WorkingThreadStatus::Active, 0, "t"),
            thread("b", WorkingThreadStatus::Focused, 0, "t"),
            thread("c", WorkingThreadStatus::Cooling, 0, "t"),
        ],
        Some("c"),
    );
    assert_eq!(focused_thread(&snapshot).map(|t| t.key.as_str()), Some("c"));
    let snapshot = snapshot_with(snapshot.threads.clone(), Some("missing"));
    assert_eq!(focused_thread(&snapshot).map(|t| t.key.as_str()), Some("b"));
    let snapshot = snapshot_with(vec![thread("a", WorkingThreadStatus::Active, 0, "t")], None);
    assert_eq!(focused_thread(&snapshot).map(|t| t.key.as_str()), Some("a"));
    assert!(focused_thread(&snapshot_with(vec![], None)).is_none());
}

#[test]
fn starter_snapshot_for_turn_needs_every_thread_touched_on_it() {
    let snapshot = snapshot_with(vec![thread("a", WorkingThreadStatus::Focused, 0, "t")], Some("a"));
    assert!(starter_snapshot_for_turn(&snapshot, "turn-1"));
    assert!(!starter_snapshot_for_turn(&snapshot, "turn-2"));
    assert!(!starter_snapshot_for_turn(&snapshot_with(vec![], None), "turn-1"));
    let mut other = thread("b", WorkingThreadStatus::Active, 0, "t");
    other.last_touched_turn_id = "turn-0".to_owned();
    let mixed = snapshot_with(vec![thread("a", WorkingThreadStatus::Focused, 0, "t"), other], None);
    assert!(!starter_snapshot_for_turn(&mixed, "turn-1"));
}

#[test]
fn derive_starter_snapshot_builds_one_focused_thread() {
    let request = HydrateWorkingMemoryRequest {
        turn_id: "turn-1".to_owned(),
        user_text: "My cat is Mocha".to_owned(),
        context_level: ContextLevel::Medium,
        exclude_message_id: None,
        latest_turn_summary: None,
    };
    let snapshot = derive_starter_snapshot_at(
        &request,
        &[message(3), message(4)],
        "2026-03-15T10:00:00Z",
        &WorkingMemoryLimits::standard(),
    );
    assert_eq!(snapshot.focus_thread_key.as_deref(), Some("thread:cat_mocha"));
    assert_eq!(snapshot.threads.len(), 1);
    assert_eq!(snapshot.threads[0].topic_label, "cat mocha");
    assert_eq!(snapshot.threads[0].synopsis, "My cat is Mocha");
    assert_eq!(snapshot.threads[0].message_refs, vec![3, 4]);
    assert_eq!(snapshot.source_refs.message_ids, vec![3, 4]);
    assert_eq!(snapshot.entity_anchors.len(), 2);
    assert_eq!(snapshot.entity_anchors[1].key, "entity:mocha");
    assert!(snapshot.open_loops.is_empty());
    assert_eq!(snapshot.version, 1);
}

#[test]
fn merge_recent_messages_dedupes_caps_and_sorts() {
    let merged = merge_recent_messages(
        vec![message(1), message(5), message(7)],
        vec![message(7), message(2), message(9), message(3)],
        4,
        2,
    );
    let ids: Vec<i64> = merged.iter().map(|m| m.id).collect();
    assert_eq!(ids, vec![2, 5, 7, 9]);
    let none = merge_recent_messages(vec![message(4)], vec![message(1)], 0, 8);
    assert_eq!(none.iter().map(|m| m.id).collect::<Vec<_>>(), vec![1]);
    assert!(merge_recent_messages(vec![], vec![], 3, 3).is_empty());
}

#[test]
fn merge_durable_memories_skips_repeats_by_id_text_and_key() {
    let item = |id: i64, text: &str, key: Option<&str>| DurableMemoryRef {
        id,
        text: text.to_owned(),
        canonical_key: key.map(|k| k.to_owned()),
    };
    let items = vec![
        item(1, "Your cat is Mocha.", Some("profile:cat")),
        item(1, "Duplicate id.", None),
        item(2, "your CAT is mocha", None),
        item(3, "Mocha likes tuna.", Some("profile:cat")),
        item(4, "", None),
        item(5, "The dog is Rex.", None),
    ];
    assert_eq!(merge_durable_memories(&items, 8), vec![0, 4, 5]);
    assert_eq!(merge_durable_memories(&items, 2), vec![0, 4]);
    assert_eq!(merge_durable_memories(&items, 0), vec![0]);
}

#[test]
fn cold_candidates_take_hits_not_already_warm() {
    assert_eq!(cold_candidates(&vec![4, 5, 6, 7], &vec![5, 9], 2), vec![0, 2]);
    assert_eq!(cold_candidates(&vec![4, 5], &vec![4, 5], 3), Vec::<usize>::new());
}

#[test]
fn recall_limits_follow_budget_and_context_level() {
    let budget = RecallBudget {
        max_recent_messages: Some(6),
        max_durable_memories: Some(4),
        include_cold_candidates: false,
    };
    assert_eq!(recall_limits(&budget, ContextLevel::Medium, 32), (6, 4, 4));
    let open = RecallBudget {
        max_recent_messages: None,
        max_durable_memories: None,
        include_cold_candidates: true,
    };
    assert_eq!(recall_limits(&open, ContextLevel::Medium, 32), (16, 5, 7));
    assert_eq!(recall_limits(&open, ContextLevel::High, 10), (10, 8, 10));
    assert!(uses_thread_context(ContinuityMode::Return));
    assert!(!uses_thread_context(ContinuityMode::Pivot));
    assert!(!uses_thread_context(ContinuityMode::Ambiguous));
}

#[test]
fn thread_bridges_cover_unfocused_threads() {
    let mut long = thread("b", WorkingThreadStatus::Cooling, 0, "t");
    long.synopsis = "x".repeat(130);
    let snapshot = snapshot_with(vec![thread("a", WorkingThreadStatus::Focused, 0, "t"), long], None);
    let bridges = thread_bridges(&snapshot);
    assert_eq!(bridges.len(), 1);
    assert_eq!(bridges[0].thread_key, "b");
    assert_eq!(bridges[0].synopsis.chars().count(), 120);
    assert!(bridges[0].synopsis.ends_with('…'));
    assert_eq!(bridges[0].status, WorkingThreadStatus::Cooling);
}

#[test]
fn str_lt_is_lexicographic() {
    assert!(str_lt("2026-03-15T09:00:00Z", "2026-03-15T10:00:00Z"));
    assert!(!str_lt("b", "a"));
    assert!(str_lt("ab", "abc"));
    assert!(!str_lt("abc", "abc"));
    assert!(str_lt("z", "é"));
}

#[test]
fn recall_uses_memory_when_anything_was_drawn_on() {
    assert!(!recall_used_memory(0, 0, 0, false));
    assert!(recall_used_memory(1, 0, 0, false));
    assert!(recall_used_memory(0, 2, 0, false));
    assert!(recall_used_memory(0, 0, 3, false));
    assert!(recall_used_memory(0, 0, 0, true));
}
