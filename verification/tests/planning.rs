use rust_core::hgie::{authorize_ambient, behavior_policy_for_user_turn, normalize_plain_text_output, PlainTextError};
use rust_core::prompt_translator::ParsedTurnOutputKind;
use rust_core::hgie::{
    chunk_text, collect_turn_message_ids, delivery_mode, extract_grounded_memories,
    final_route, normalize_key, plan_turn_route, sanitize_fact_fragment, split_after_prefix,
    trace_state_model_stage, ContextPolicy, ExecutionRole, RuntimeCapabilities, TurnPlanKind,
};
use rust_core::logging::TurnTraceSummary;
use rust_core::memory::ContinuityMode;

fn capabilities() -> RuntimeCapabilities {
    RuntimeCapabilities {
        local_reply: true,
        fast_ack: true,
        cloud_reasoning: true,
    }
}

#[test]
fn plan_turn_route_keeps_greetings_direct_and_memory_recall_local() {
    let greeting = plan_turn_route("hi there", false, ContinuityMode::Ambiguous, &[], capabilities());
    assert_eq!(greeting.plan_kind, TurnPlanKind::DirectNano);
    assert_eq!(greeting.context_policy, ContextPolicy::TranscriptOnly);
    assert!(greeting.ack_beat().is_none());
    assert_eq!(
        greeting.primary_beat().map(|beat| beat.role),
        Some(ExecutionRole::LocalReply)
    );

    let recall = plan_turn_route("who's Mocha?", true, ContinuityMode::Ambiguous, &[], capabilities());
    assert_eq!(recall.plan_kind, TurnPlanKind::RecallNano);
    assert_eq!(recall.context_policy, ContextPolicy::DurableOnly);
    assert!(recall.ack_beat().is_none());
    assert_eq!(
        recall.primary_beat().map(|beat| beat.role),
        Some(ExecutionRole::MemoryReply)
    );
}

#[test]
fn plan_turn_route_uses_cloud_for_deep_and_probable_tool_turns() {
    let deep = plan_turn_route(
        "Explain the tradeoffs between SQLite WAL and rollback journal modes for Android",
        false,
        ContinuityMode::Ambiguous,
        &[],
        capabilities(),
    );
    assert_eq!(deep.plan_kind, TurnPlanKind::CloudEscalated);
    assert!(!deep.tool_consulted);
    assert_eq!(
        deep.primary_beat().map(|beat| beat.role),
        Some(ExecutionRole::DeepReasoning)
    );
    assert_eq!(
        deep.ack_beat().map(|beat| beat.role),
        Some(ExecutionRole::FastAck)
    );

    let tool = plan_turn_route(
        "Can you sort out Spotify for me?",
        false,
        ContinuityMode::Ambiguous,
        &[],
        capabilities(),
    );
    assert_eq!(tool.plan_kind, TurnPlanKind::CloudTool);
    assert!(tool.tool_consulted);
    assert_eq!(
        tool.primary_beat().map(|beat| beat.role),
        Some(ExecutionRole::StructuredToolDecision)
    );
    assert_eq!(
        tool.ack_beat().map(|beat| beat.role),
        Some(ExecutionRole::FastAck)
    );

    let exact_tool = plan_turn_route(
        "what is playing on spotify",
        false,
        ContinuityMode::Ambiguous,
        &[],
        capabilities(),
    );
    assert_eq!(exact_tool.plan_kind, TurnPlanKind::ToolDirect);
    assert!(exact_tool.ack_beat().is_none());
    assert_eq!(
        exact_tool.primary_beat().map(|beat| beat.role),
        Some(ExecutionRole::DeterministicTool)
    );
}

#[test]
fn plan_turn_route_uses_memory_continuity_to_adjust_context_policy() {
    let returning = plan_turn_route(
        "Back to the memory design thread.",
        false,
        ContinuityMode::Return,
        &[7],
        capabilities(),
    );
    assert_eq!(returning.plan_kind, TurnPlanKind::DirectNano);
    assert_eq!(returning.context_policy, ContextPolicy::TranscriptPlusDurable);
    assert_eq!(
        returning.primary_beat().map(|beat| beat.context_recipe),
        Some(ContextPolicy::TranscriptPlusDurable)
    );
    assert!(returning
        .reason_codes
        .iter()
        .any(|reason| reason == "continuity:return"));

    let open_loop = plan_turn_route("and then", false, ContinuityMode::OpenLoop, &[], capabilities());
    assert_eq!(open_loop.plan_kind, TurnPlanKind::DirectNano);
    assert!(open_loop
        .reason_codes
        .iter()
        .any(|reason| reason == "continuity:open_loop"));
}

#[test]
fn extract_grounded_memories_only_from_explicit_statements() {
    let memories = extract_grounded_memories("My cat is Mocha");
    assert_eq!(memories.len(), 1);
    assert_eq!(memories[0].canonical_key, "profile:cat");
    assert_eq!(memories[0].text, "Your cat is mocha.");

    assert!(extract_grounded_memories("When is Mocha arriving?").is_empty());
}

#[test]
fn grounded_memories_read_preferences_and_names() {
    let likes = extract_grounded_memories("I like green tea!");
    assert_eq!(likes.len(), 1);
    assert_eq!(likes[0].kind, "preference");
    assert_eq!(likes[0].canonical_key, "preference:like:green_tea");
    assert_eq!(likes[0].text, "You like green tea.");

    let prefers = extract_grounded_memories("i prefer short answers");
    assert_eq!(prefers[0].canonical_key, "preference:prefer:short_answers");
    assert_eq!(prefers[0].text, "You prefer short answers.");

    let name = extract_grounded_memories("Call me Sam");
    assert_eq!(name.len(), 1);
    assert_eq!(name[0].canonical_key, "profile:preferred_name");
    assert_eq!(name[0].text, "You prefer to be called sam.");

    assert!(extract_grounded_memories("   ").is_empty());
}

#[test]
fn split_after_prefix_trims_both_sides() {
    assert_eq!(
        split_after_prefix("my dog is  Rex ", "my ", " is "),
        Some(("dog".to_owned(), "Rex".to_owned()))
    );
    assert_eq!(split_after_prefix("your dog is Rex", "my ", " is "), None);
    assert_eq!(split_after_prefix("my dog Rex", "my ", " is "), None);
}

#[test]
fn fact_fragments_and_keys_are_normalised() {
    assert_eq!(sanitize_fact_fragment("  \"Mocha  the cat!\" "), "Mocha the cat");
    assert_eq!(normalize_key("Favourite Tea-Type"), "favourite_tea_type");
}

#[test]
fn chunk_text_packs_words_by_bytes() {
    assert_eq!(chunk_text("one two three four", 9), vec!["one two", "three", "four"]);
    assert_eq!(chunk_text("   ", 4), vec!["   "]);
    assert!(chunk_text("", 4).is_empty());
}

#[test]
fn turn_message_ids_keep_order() {
    assert_eq!(collect_turn_message_ids(1, Some(2), 3), vec![1, 2, 3]);
    assert_eq!(collect_turn_message_ids(1, None, 3), vec![1, 3]);
}

fn summary(stages: &[&str], cloud_used: bool, tool_used: bool, had_fallback: bool) -> TurnTraceSummary {
    TurnTraceSummary {
        turn_id: "turn-1".to_owned(),
        created_at: String::new(),
        user_input_summary: String::new(),
        input_source: "text".to_owned(),
        plan_kind: "direct_nano".to_owned(),
        fallback_plan_kind: None,
        context_policy: None,
        model_stages: stages.iter().map(|stage| stage.to_string()).collect(),
        memory_used: false,
        tool_consulted: false,
        tool_used,
        nano_first_beat_used: false,
        cloud_escalated: false,
        cloud_used,
        selected_cloud_profile: None,
        delivery_mode: String::new(),
        final_route: String::new(),
        error_summary: None,
        total_latency_ms: 0,
        final_visible_output: String::new(),
        had_fallback,
    }
}

#[test]
fn delivery_mode_and_route_follow_stages() {
    let s = summary(&["first_beat"], true, false, false);
    assert_eq!(delivery_mode(&s), "NANO_THEN_CLOUD");
    assert_eq!(final_route(&s), "nano + cloud");
    let t = summary(&[], false, true, false);
    assert_eq!(delivery_mode(&t), "TOOL_ONLY");
    assert_eq!(final_route(&t), "tool");
    let f = summary(&["fallback_nano"], false, false, true);
    assert_eq!(delivery_mode(&f), "FALLBACK_NANO");
    assert_eq!(final_route(&f), "nano + fallback");
    let none = summary(&[], false, false, false);
    assert_eq!(final_route(&none), "none");
    assert_eq!(delivery_mode(&none), "UNSPECIFIED");
}

#[test]
fn model_stages_are_recorded_once() {
    let mut s = summary(&[], false, false, false);
    trace_state_model_stage(&mut s, "first_beat");
    trace_state_model_stage(&mut s, "first_beat");
    trace_state_model_stage(&mut s, "nano_reply");
    assert_eq!(s.model_stages, vec!["first_beat", "nano_reply"]);
}

#[test]
fn plain_text_stage_output_is_checked() {
    assert_eq!(
        normalize_plain_text_output(ParsedTurnOutputKind::PlainTextFallback, "  hi ", false),
        Ok("hi".to_owned())
    );
    assert_eq!(
        normalize_plain_text_output(ParsedTurnOutputKind::Structured, "hi", true),
        Err(PlainTextError::ToolRequestEnvelope)
    );
    assert_eq!(
        normalize_plain_text_output(ParsedTurnOutputKind::SuppressedInternalPayload, "hi", false)
            .unwrap_err()
            .message(),
        "plain-text stage returned an internal payload"
    );
    assert_eq!(
        normalize_plain_text_output(ParsedTurnOutputKind::PlainTextFallback, "  ", false),
        Err(PlainTextError::EmptyResponse)
    );
}

#[test]
fn ambient_events_need_cooldown_and_idle_time() {
    assert!(!authorize_ambient("note_opened", true, 10_000, 900));
    assert!(!authorize_ambient("capability_available", false, 0, 900));
    assert!(authorize_ambient("capability_available", true, 0, 900));
    assert!(!authorize_ambient("resume_after_idle", true, 899, 900));
    assert!(authorize_ambient("resume_after_idle", true, 900, 900));
}

#[test]
fn turn_tone_follows_the_words() {
    let calm = behavior_policy_for_user_turn("Tell me a story");
    assert!(calm.allow_playfulness && calm.allow_humor);
    let why = behavior_policy_for_user_turn("Why is it BROKEN");
    assert!(why.allow_playfulness && !why.allow_humor);
    let urgent = behavior_policy_for_user_turn("This is urgent");
    assert!(!urgent.allow_playfulness && !urgent.allow_humor);
}

#[test]
fn cloud_only_runtime_moves_local_plans_to_the_cloud() {
    let caps = RuntimeCapabilities {
        local_reply: false,
        fast_ack: false,
        cloud_reasoning: true,
    };
    let plan = plan_turn_route("hi there", false, ContinuityMode::Ambiguous, &[], caps);
    assert_eq!(plan.plan_kind, TurnPlanKind::CloudEscalated);
    assert_eq!(
        plan.primary_beat().map(|beat| beat.role),
        Some(ExecutionRole::CloudReply)
    );
    assert!(plan.uses_cloud());
    assert!(plan
        .reason_codes
        .iter()
        .any(|reason| reason == "capability:cloud_reply_substitution"));
}
