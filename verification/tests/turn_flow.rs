use rust_core::conversation::InputSource;
use rust_core::hgie::flow::{
    ack_outcome, callback_turn_summary, check_ack_role, check_fallback_available,
    cloud_assistant_reply, cloud_fallback, enter_fallback, fallback_visible_text, primary_runner,
    received_turn_summary, record_plan_selection, record_visible_fallback, runs_cloud_tool,
    tool_direct_reply, tool_direct_request, AckOutcome, CloudProblem, PrimaryRunner, TurnFlowError,
    next_model_trace_event, next_trace_event, TurnTraceState, turn_recall_budget,
    prompt_issue_log_entry, cloud_failure_log_entry,
};
use rust_core::conversation::ContextLevel;
use rust_core::hgie::trace_payload;
use rust_core::logging::{ModelLogEntry, TraceVisibilityClass};
use rust_core::hgie::{
    delivery_mode, final_route, plan_turn_route, ExecutionRole, FallbackPlanKind,
    RuntimeCapabilities, TurnPlanKind,
};
use rust_core::memory::ContinuityMode;

fn capabilities(local_reply: bool, fast_ack: bool) -> RuntimeCapabilities {
    RuntimeCapabilities { local_reply, fast_ack, cloud_reasoning: true }
}

#[test]
fn received_summary_starts_unplanned_and_pending() {
    let summary = received_turn_summary(
        "turn-1",
        "2026-03-15T10:00:00Z",
        "  hello   there  ",
        InputSource::Voice,
    );
    assert_eq!(summary.turn_id, "turn-1");
    assert_eq!(summary.user_input_summary, "hello there");
    assert_eq!(summary.input_source, "voice");
    assert_eq!(summary.plan_kind, "unplanned");
    assert_eq!(summary.delivery_mode, "PENDING");
    assert_eq!(summary.final_route, "pending");
    assert!(summary.model_stages.is_empty());
    assert!(!summary.had_fallback);
    assert_eq!(delivery_mode(&summary), "UNSPECIFIED");
}

#[test]
fn callback_summary_is_a_tool_turn() {
    let summary = callback_turn_summary("turn-9", "2026-03-15T10:00:00Z");
    assert_eq!(summary.plan_kind, "tool_direct");
    assert_eq!(summary.context_policy.as_deref(), Some("none"));
    assert_eq!(summary.delivery_mode, "TOOL_CALLBACK");
    assert_eq!(summary.final_route, "tool");
    assert!(summary.tool_used && summary.tool_consulted);
    assert_eq!(final_route(&summary), "tool");
    assert_eq!(delivery_mode(&summary), "TOOL_ONLY");
}

#[test]
fn plan_selection_records_cloud_profile_only_for_cloud_plans() {
    let mut summary = received_turn_summary("turn-1", "t", "hi", InputSource::Text);
    let deep = plan_turn_route(
        "Explain the tradeoffs between SQLite WAL and rollback journal modes for Android",
        false,
        ContinuityMode::Ambiguous,
        &[],
        capabilities(true, true),
    );
    record_plan_selection(&mut summary, &deep, Some("openai_mini".to_owned()));
    assert_eq!(summary.plan_kind, "cloud_escalated");
    assert_eq!(summary.context_policy.as_deref(), Some("transcript_only"));
    assert!(summary.cloud_escalated);
    assert_eq!(summary.selected_cloud_profile.as_deref(), Some("openai_mini"));

    let greeting = plan_turn_route("hi there", false, ContinuityMode::Ambiguous, &[], capabilities(true, true));
    record_plan_selection(&mut summary, &greeting, Some("openai_mini".to_owned()));
    assert_eq!(summary.plan_kind, "direct_nano");
    assert!(!summary.cloud_escalated);
    assert_eq!(summary.selected_cloud_profile, None);
}

#[test]
fn fallbacks_mark_the_summary() {
    let mut summary = received_turn_summary("turn-1", "t", "hi", InputSource::Text);
    enter_fallback(&mut summary, FallbackPlanKind::FallbackNano);
    assert!(summary.had_fallback);
    assert_eq!(summary.fallback_plan_kind.as_deref(), Some("fallback_nano"));
    let mut visible = received_turn_summary("turn-2", "t", "hi", InputSource::Text);
    record_visible_fallback(&mut visible, "boom".to_owned());
    assert_eq!(visible.fallback_plan_kind.as_deref(), Some("fallback_error_visible"));
    assert_eq!(visible.error_summary.as_deref(), Some("boom"));
    assert_eq!(final_route(&visible), "fallback");
    assert_eq!(delivery_mode(&visible), "FALLBACK_VISIBLE");
    assert_eq!(fallback_visible_text("On it."), "On it.");
    assert_eq!(fallback_visible_text(""), "Something needs attention before I can finish that.");
}

#[test]
fn primary_runner_follows_the_primary_role() {
    let greeting = plan_turn_route("hi there", false, ContinuityMode::Ambiguous, &[], capabilities(true, true));
    assert_eq!(primary_runner(&greeting), Ok(PrimaryRunner::Nano));
    let deep = plan_turn_route(
        "Please analyze this for me",
        false,
        ContinuityMode::Ambiguous,
        &[],
        capabilities(true, true),
    );
    assert_eq!(primary_runner(&deep), Ok(PrimaryRunner::Cloud));
    let tool = plan_turn_route("pause spotify", false, ContinuityMode::Ambiguous, &[], capabilities(true, true));
    assert_eq!(tool.plan_kind, TurnPlanKind::ToolDirect);
    assert_eq!(primary_runner(&tool), Ok(PrimaryRunner::ToolDirect));
    let request = tool_direct_request(&tool).expect("exact request");
    assert_eq!(request.action, "pause");
    assert_eq!(tool_direct_request(&greeting).err(), Some(TurnFlowError::ToolDirectWithoutExactRequest));
    let mut broken = greeting.clone();
    broken.beats.clear();
    assert_eq!(primary_runner(&broken), Err(TurnFlowError::MissingPrimaryBeat));
    assert_eq!(
        TurnFlowError::MissingPrimaryBeat.message(),
        "turn execution plan is missing a primary beat"
    );
    assert_eq!(
        TurnFlowError::FastAckAsPrimary.message(),
        "fast ack beat cannot be the primary execution beat"
    );
}

#[test]
fn ack_outcomes_and_roles() {
    assert_eq!(ack_outcome(Ok("On it.".to_owned()), true), AckOutcome::Started("On it.".to_owned()));
    assert_eq!(ack_outcome(Ok("   ".to_owned()), false), AckOutcome::Silent);
    assert_eq!(ack_outcome(Err("timeout".to_owned()), true), AckOutcome::Skipped("timeout".to_owned()));
    assert_eq!(ack_outcome(Err("timeout".to_owned()), false), AckOutcome::Failed("timeout".to_owned()));
    assert_eq!(check_ack_role(ExecutionRole::FastAck), Ok(()));
    assert_eq!(check_ack_role(ExecutionRole::LocalReply), Err(TurnFlowError::AckForNonFastAck));
    assert_eq!(
        TurnFlowError::AckForNonFastAck.message(),
        "ack beat requested for non-fast-ack role"
    );
}

#[test]
fn cloud_problems_fall_back_only_with_a_local_model() {
    assert_eq!(
        cloud_fallback(CloudProblem::RuntimeError("503".to_owned()), true),
        Ok("cloud_runtime_error".to_owned())
    );
    assert_eq!(cloud_fallback(CloudProblem::OutputSuppressed, true), Ok("cloud_output_suppressed".to_owned()));
    let failed = cloud_fallback(CloudProblem::RuntimeError("503".to_owned()), false).unwrap_err();
    assert_eq!(failed.message(), "cloud reasoning failed: 503");
    assert_eq!(
        cloud_fallback(CloudProblem::OutputSuppressed, false).unwrap_err().message(),
        "cloud reasoning returned suppressed internal payload"
    );
    assert_eq!(check_fallback_available(true), Ok(()));
    assert_eq!(
        check_fallback_available(false).unwrap_err().message(),
        "nano fallback requested without a local reply runtime"
    );
}

#[test]
fn cloud_and_tool_replies_pick_the_visible_text() {
    assert!(runs_cloud_tool(TurnPlanKind::CloudTool, true));
    assert!(!runs_cloud_tool(TurnPlanKind::CloudTool, false));
    assert!(!runs_cloud_tool(TurnPlanKind::CloudEscalated, true));
    assert_eq!(cloud_assistant_reply("  ", Some("Paused."), ""), "Paused.");
    assert_eq!(cloud_assistant_reply("  ", Some("Paused."), "On it."), "  ");
    assert_eq!(cloud_assistant_reply("Done!", Some("Paused."), ""), "Done!");
    assert_eq!(cloud_assistant_reply("", None, ""), "");
    assert_eq!(tool_direct_reply(" ", "Paused."), "Paused.");
    assert_eq!(tool_direct_reply("On it.", "Paused."), "On it.");
}

fn trace_state() -> TurnTraceState {
    let mut summary = received_turn_summary("turn-1", "t", "hi", InputSource::Text);
    summary.context_policy = Some("transcript_only".to_owned());
    TurnTraceState { stage_seq: 4, summary }
}

#[test]
fn trace_events_number_and_carry_the_summary() {
    let mut state = trace_state();
    let payload = trace_payload("raw_input", TraceVisibilityClass::SensitiveLocal, "text", "héllo");
    assert_eq!(payload.size_bytes, 6);
    let event = next_trace_event(
        &mut state,
        "2026-03-15T10:00:00Z",
        "decision",
        "PLAN_SELECTED",
        vec!["deep_reasoning".to_owned()],
        vec![],
        Some("{\"ids\":[1]}".to_owned()),
        vec![payload],
    );
    assert_eq!(state.stage_seq, 5);
    assert_eq!(event.stage_seq, 5);
    assert_eq!(event.turn_id, "turn-1");
    assert_eq!(event.plan_kind.as_deref(), Some("unplanned"));
    assert_eq!(event.context_policy.as_deref(), Some("transcript_only"));
    assert_eq!(event.reason_codes, vec!["deep_reasoning".to_owned()]);
    assert_eq!(event.selected_refs_json.as_deref(), Some("{\"ids\":[1]}"));
    assert_eq!(event.payloads.len(), 1);
    assert!(event.status.is_none());
    let staged = next_trace_event(&mut state, "t", "turn", "X", vec![], vec!["nano_reply".to_owned()], None, vec![]);
    assert_eq!(staged.stage_seq, 6);
    assert_eq!(state.summary.model_stages, vec!["nano_reply".to_owned()]);
}

#[test]
fn model_trace_events_take_the_first_log() {
    let mut state = trace_state();
    let log = ModelLogEntry {
        created_at: "t".to_owned(),
        model_name: "Nano follow-up".to_owned(),
        prompt: "p".to_owned(),
        raw_output: "r".to_owned(),
        input_tokens: None,
        output_tokens: None,
        latency_ms: 42,
        http_status: Some(200),
        error_text: Some("bad".to_owned()),
    };
    let event = next_model_trace_event(
        &mut state, "t", "PRIMARY_STAGE_COMPLETED", "nano_reply", "nano", &[log],
        "in", "out", "shown", Some("dropped"),
    );
    assert_eq!(event.stage_seq, 5);
    assert_eq!(event.category, "model");
    assert_eq!(event.model.as_deref(), Some("Nano follow-up"));
    assert_eq!(event.status.as_deref(), Some("error"));
    assert_eq!(event.latency_ms, Some(42));
    assert_eq!(event.http_status, Some(200));
    assert_eq!(event.displayed_text.as_deref(), Some("shown"));
    let slots: Vec<&str> = event.payloads.iter().map(|p| p.slot.as_str()).collect();
    assert_eq!(slots, vec!["raw_input", "raw_output", "normalized_output", "discarded_output"]);
    let plain = next_model_trace_event(&mut state, "t", "FIRST_BEAT_COMPLETED", "first_beat", "nano", &[], "in", "out", "shown", None);
    assert_eq!(plain.status.as_deref(), Some("success"));
    assert_eq!(plain.model, None);
    assert_eq!(plain.payloads.len(), 3);
}

#[test]
fn recall_budget_and_issue_logs() {
    let budget = turn_recall_budget(ContextLevel::High);
    assert_eq!(budget.max_recent_messages, Some(32));
    assert_eq!(budget.max_durable_memories, Some(8));
    assert!(!budget.include_cold_candidates);
    let low = turn_recall_budget(ContextLevel::Low);
    assert_eq!((low.max_recent_messages, low.max_durable_memories), (Some(8), Some(2)));
    let entry = prompt_issue_log_entry("t".to_owned(), "ambient_line", "capability", "bad frame".to_owned());
    assert_eq!(entry.model_name, "Prompt pipeline");
    assert_eq!(entry.prompt, "stage=ambient_line\ninput=capability");
    assert_eq!(entry.error_text.as_deref(), Some("bad frame"));
    let cloud = cloud_failure_log_entry("t".to_owned(), "[]".to_owned(), "503".to_owned());
    assert_eq!(cloud.model_name, "Cloud reasoning");
    assert_eq!(cloud.prompt, "[]");
    assert_eq!(cloud.latency_ms, 0);
}
