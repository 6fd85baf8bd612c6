use rust_core::memory::observability::{
    compute_average_tokens_per_second, idle_usage_stats, merge_diagnostic_issues, model_issue,
    model_trace_entry, payload_slot_text, tool_issue, usage_stats,
};
use rust_core::memory::recall::{
    collect_constraints, collect_entity_anchors, collect_open_loops, derive_thread_key,
    derive_topic_label, is_stop_word, merge_unique_i64, significant_tokens, status_rank,
    upsert_entity_anchor,
};
use rust_core::memory::types::{EntityAnchor, WorkingThreadStatus};
use rust_core::memory::vector::feature_slot;
use rust_core::model::{
    absorb_stream_chunk, accept_header, authorization_header, classify_stream_line,
    is_event_stream, provider_error_message, StreamLine, StreamTotals,
};
use rust_core::memory::{normalize_memory_text, stable_hash};
use rust_core::model_runtime::{
    ambient_max_output_tokens, choose_selected_profile, clean_nano_text,
    first_beat_max_output_tokens, nano_reply_max_output_tokens, normalize_nano_max_output_tokens,
    AmbientRequest, FirstBeatRequest, NanoAvailability, NanoPromptMode, NanoReplyRequest,
    NanoSnapshot,
};
use rust_core::prompt_translator::{CompiledNanoPrompt, PromptMode};
use rust_core::tools::{detect_tool_intent, ToolArguments, ToolName};

#[test]
fn computes_tokens_per_second_when_latency_and_tokens_exist() {
    assert_eq!(
        compute_average_tokens_per_second(Some(240), Some(120)),
        Some(2000)
    );
}

#[test]
fn tokens_per_second_is_none_without_complete_stats() {
    assert_eq!(compute_average_tokens_per_second(None, Some(120)), None);
    assert_eq!(compute_average_tokens_per_second(Some(240), None), None);
    assert_eq!(compute_average_tokens_per_second(Some(0), Some(120)), None);
    assert_eq!(compute_average_tokens_per_second(Some(240), Some(0)), None);
}

#[test]
fn tokens_per_second_rounds_half_away_from_zero() {
    assert_eq!(compute_average_tokens_per_second(Some(1), Some(2000)), Some(1));
    assert_eq!(compute_average_tokens_per_second(Some(1), Some(3000)), Some(0));
    assert_eq!(compute_average_tokens_per_second(Some(i64::MAX), Some(1)), Some(i64::MAX));
}

#[test]
fn normalize_nano_max_output_tokens_caps_above_mlkit_limit() {
    assert_eq!(normalize_nano_max_output_tokens(Some(512), 48), 256);
    assert_eq!(normalize_nano_max_output_tokens(Some(0), 48), 48);
    assert_eq!(normalize_nano_max_output_tokens(None, 48), 48);
}

#[test]
fn payload_slot_text_takes_the_first_match() {
    let entries = vec![
        ("raw".to_owned(), "first".to_owned()),
        ("raw".to_owned(), "second".to_owned()),
    ];
    assert_eq!(payload_slot_text(Some(&entries), "raw"), Some("first".to_owned()));
    assert_eq!(payload_slot_text(Some(&entries), "other"), None);
    assert_eq!(payload_slot_text(None, "raw"), None);
}

#[test]
fn thread_keys_and_labels_come_from_significant_tokens() {
    assert_eq!(
        significant_tokens("What about the memory design, and hot state?"),
        vec!["memory", "design", "hot", "state"]
    );
    assert_eq!(
        derive_thread_key("We are discussing memory design and hot state."),
        "thread:are_discussing_memory_design"
    );
    assert_eq!(derive_thread_key("ok so"), "thread:general");
    assert_eq!(derive_topic_label("ok", "  fallback   text "), "fallback text");
    assert!(is_stop_word("the"));
    assert!(!is_stop_word("memory"));
}

#[test]
fn merge_unique_keeps_first_occurrences() {
    let mut target = vec![1, 2];
    merge_unique_i64(&mut target, &[2, 3, 3, 1, 4]);
    assert_eq!(target, vec![1, 2, 3, 4]);
}

#[test]
fn working_memory_items_follow_the_turn() {
    assert_eq!(status_rank(&WorkingThreadStatus::Focused), 0);
    assert_eq!(status_rank(&WorkingThreadStatus::Cooling), 2);
    let anchors = collect_entity_anchors("turn-1", "memory design hot state", "thread:x");
    assert_eq!(anchors.len(), 3);
    assert_eq!(anchors[0].key, "entity:memory");
    assert_eq!(anchors[2].label, "hot");
    let loops = collect_open_loops("turn-1", "Where were we?  ", "thread:x");
    assert_eq!(loops.len(), 1);
    assert_eq!(loops[0].key, "loop:thread:x");
    assert!(collect_open_loops("turn-1", "No question", "thread:x").is_empty());
    let constraints = collect_constraints("turn-1", "Keep it BRIEF please", 5);
    assert_eq!(constraints.len(), 1);
    assert_eq!(constraints[0].expires_after_turns, 5);
    assert!(collect_constraints("turn-1", "tell me more", 5).is_empty());
}

#[test]
fn upsert_refreshes_an_existing_anchor() {
    let mut anchors = vec![EntityAnchor {
        key: "entity:mocha".to_owned(),
        label: "old".to_owned(),
        kind: "topic_token".to_owned(),
        thread_key: "thread:a".to_owned(),
        last_seen_turn_id: "turn-1".to_owned(),
        stale_turns: 3,
    }];
    upsert_entity_anchor(
        &mut anchors,
        EntityAnchor {
            key: "entity:mocha".to_owned(),
            label: "mocha".to_owned(),
            kind: "topic_token".to_owned(),
            thread_key: "thread:b".to_owned(),
            last_seen_turn_id: "turn-2".to_owned(),
            stale_turns: 9,
        },
    );
    assert_eq!(anchors.len(), 1);
    assert_eq!(anchors[0].label, "mocha");
    assert_eq!(anchors[0].thread_key, "thread:b");
    assert_eq!(anchors[0].stale_turns, 0);
}

#[test]
fn memory_text_is_normalised_and_hashed() {
    assert_eq!(normalize_memory_text("  Mocha's   CAT! "), "mocha s cat");
    assert_eq!(stable_hash(b""), 0xcbf29ce484222325);
    assert_eq!(stable_hash(b"a"), 0xaf63dc4c8601ec8c);
}

#[test]
fn runtime_helpers_behave() {
    assert_eq!(NanoAvailability::Downloading.as_str(), "downloading");
    assert_eq!(NanoSnapshot::disabled().availability, NanoAvailability::Disabled);
    assert_eq!(
        NanoPromptMode::from_prompt_mode(PromptMode::AmbientLine),
        NanoPromptMode::Ambient
    );
    assert_eq!(
        NanoPromptMode::from_prompt_mode(PromptMode::CloudReasoning),
        NanoPromptMode::FullReply
    );
    assert_eq!(clean_nano_text("  \"Sure.\" "), Some("Sure.".to_owned()));
    assert_eq!(clean_nano_text(" \"\" "), None);
    let profiles = vec![("a".to_owned(), false), ("b".to_owned(), true)];
    assert_eq!(choose_selected_profile(Some("a"), profiles.clone()), Some("a".to_owned()));
    assert_eq!(choose_selected_profile(Some("z"), profiles.clone()), Some("b".to_owned()));
    assert_eq!(
        choose_selected_profile(None, vec![("a".to_owned(), false)]),
        Some("a".to_owned())
    );
    assert_eq!(choose_selected_profile(None, vec![]), None);
}

#[test]
fn tool_names_parse_and_intents_are_detected() {
    assert_eq!(ToolName::parse("  SpoTify ").unwrap(), ToolName::Spotify);
    assert_eq!(
        ToolName::parse(" Lamp ").unwrap_err().message(),
        "unsupported tool: lamp"
    );
    let play = detect_tool_intent("Play Bohemian Rhapsody on Spotify");
    let request = play.exact_request.expect("play request");
    assert_eq!(request.tool, ToolName::Spotify);
    assert_eq!(request.action, "play");
    assert!(matches!(
        request.arguments,
        ToolArguments::Query(ref q) if q == "Bohemian Rhapsody on Spotify"
    ));
    let lower = detect_tool_intent("play jazz on spotify").exact_request.expect("play request");
    assert!(matches!(lower.arguments, ToolArguments::Query(ref q) if q == "jazz"));
    let lights = detect_tool_intent("turn on the lights");
    assert!(matches!(
        lights.exact_request.map(|r| r.arguments),
        Some(ToolArguments::Power(true))
    ));
    let color = detect_tool_intent("Set the lights to warm white");
    assert!(matches!(
        color.exact_request.map(|r| r.arguments),
        Some(ToolArguments::Color(ref c)) if c == "warm white"
    ));
    let vague = detect_tool_intent("the hue app");
    assert!(vague.exact_request.is_none());
    assert_eq!(vague.probable_tool, Some(ToolName::Hue));
}

#[test]
fn feature_slot_uses_hash_remainder_and_parity() {
    assert_eq!(feature_slot(b"a", 8), (4, true));
    assert_eq!(feature_slot(b"a", 10), (6, true));
    assert_eq!(feature_slot(b"", 8), (5, false));
    assert_eq!(feature_slot(b"hello", 10), (1, false));
    assert_eq!(feature_slot(b"hello", 1), (0, false));
}

#[test]
fn usage_stats_default_tokens_and_rate() {
    let cloud = usage_stats(3, None, Some(120), Some(2000), Some(600), Some(500), false);
    assert_eq!(cloud.calls, 3);
    assert_eq!(cloud.tokens_in, Some(0));
    assert_eq!(cloud.tokens_out, Some(120));
    assert_eq!(cloud.latency_avg_ms, Some(600));
    assert_eq!(cloud.latency_latest_ms, Some(500));
    assert_eq!(cloud.tokens_per_second, Some(60));
    let nano = usage_stats(0, None, None, None, Some(9), Some(9), true);
    assert_eq!(nano.tokens_in, None);
    assert_eq!(nano.latency_avg_ms, None);
    assert_eq!(nano.latency_latest_ms, None);
    assert_eq!(nano.tokens_per_second, None);
    let idle = idle_usage_stats();
    assert_eq!((idle.calls, idle.tokens_in, idle.tokens_out), (0, Some(0), Some(0)));
}

#[test]
fn diagnostic_issues_merge_newest_first_and_cap() {
    let model = vec![
        model_issue("2026-03-15T10:00:00Z".to_owned(), "timeout".to_owned(), Some("Cloud".to_owned())),
        model_issue("2026-03-15T08:00:00Z".to_owned(), "refused".to_owned(), None),
    ];
    let tool = vec![
        tool_issue("2026-03-15T09:00:00Z".to_owned(), "hue", "set_power", None),
        tool_issue("2026-03-15T10:00:00Z".to_owned(), "spotify", "play", Some("No device.".to_owned())),
    ];
    assert_eq!(tool[0].subsystem, "tool:hue");
    assert_eq!(tool[0].summary, "Tool action failed.");
    assert_eq!(tool[0].detail.as_deref(), Some("action=set_power"));
    let merged = merge_diagnostic_issues(model, tool);
    let order: Vec<&str> = merged.iter().map(|i| i.summary.as_str()).collect();
    assert_eq!(order, vec!["timeout", "No device.", "Tool action failed.", "refused"]);
    let many: Vec<_> = (0..20)
        .map(|i| model_issue(format!("2026-03-15T10:{i:02}:00Z"), format!("e{i}"), None))
        .collect();
    let capped = merge_diagnostic_issues(many, vec![]);
    assert_eq!(capped.len(), 12);
    assert_eq!(capped[0].summary, "e19");
}

#[test]
fn model_trace_entry_fills_defaults_and_payloads() {
    let attachments = vec![
        ("raw_input".to_owned(), "in".to_owned()),
        ("normalized_output".to_owned(), "shown".to_owned()),
        ("raw_input".to_owned(), "second".to_owned()),
    ];
    let entry = model_trace_entry(
        "t".to_owned(), "turn-1".to_owned(), "PRIMARY_STAGE_COMPLETED".to_owned(),
        Some("nano_reply".to_owned()), Some("nano".to_owned()), None, None, None, None, None,
        Some(&attachments),
    );
    assert_eq!(entry.status, "unknown");
    assert_eq!(entry.latency_ms, 0);
    assert_eq!(entry.raw_input.as_deref(), Some("in"));
    assert_eq!(entry.normalized_output.as_deref(), Some("shown"));
    assert_eq!(entry.raw_output, None);
    assert_eq!(entry.discarded_text, None);
    let bare = model_trace_entry(
        "t".to_owned(), "turn-1".to_owned(), "X".to_owned(), None, None, None, None,
        Some("success".to_owned()), Some(7), None, None,
    );
    assert_eq!(bare.status, "success");
    assert_eq!(bare.latency_ms, 7);
    assert_eq!(bare.raw_input, None);
}

#[test]
fn stream_lines_and_totals() {
    assert_eq!(classify_stream_line("data: {\"a\":1}"), StreamLine::Payload("{\"a\":1}".to_owned()));
    assert_eq!(classify_stream_line("data: [DONE]"), StreamLine::Done);
    assert_eq!(classify_stream_line(": keep-alive"), StreamLine::Ignored);
    assert_eq!(classify_stream_line("data:[DONE]"), StreamLine::Ignored);
    let mut totals = StreamTotals { raw_output: String::new(), input_tokens: None, output_tokens: None };
    absorb_stream_chunk(&mut totals, Some("Hel"), None, None);
    absorb_stream_chunk(&mut totals, Some("lo"), Some(12), None);
    absorb_stream_chunk(&mut totals, None, Some(99), Some(5));
    assert_eq!(totals.raw_output, "Hello");
    assert_eq!(totals.input_tokens, Some(12));
    assert_eq!(totals.output_tokens, Some(5));
}

#[test]
fn provider_request_headers_and_errors() {
    assert_eq!(authorization_header("sk-1").as_deref(), Some("Bearer sk-1"));
    assert_eq!(authorization_header("   "), None);
    assert_eq!(authorization_header("YOUR_KEY"), None);
    assert_eq!(accept_header(true), "text/event-stream");
    assert_eq!(accept_header(false), "application/json");
    assert!(is_event_stream("text/event-stream; charset=utf-8"));
    assert!(!is_event_stream("application/json"));
    assert_eq!(provider_error_message(503, "busy"), "model provider returned 503 with body: busy");
}

fn nano_prompt(mode: PromptMode, max_output_tokens: Option<u32>) -> CompiledNanoPrompt {
    CompiledNanoPrompt { mode, prompt: "Explain gravity".to_owned(), max_output_tokens }
}

#[test]
fn local_requests_never_ask_more_than_256_tokens() {
    let first = FirstBeatRequest { prompt: nano_prompt(PromptMode::FirstBeat, Some(256)) };
    assert_eq!(first_beat_max_output_tokens(&first, Some(1024)), Some(256));
    let unset = FirstBeatRequest { prompt: nano_prompt(PromptMode::FirstBeat, None) };
    assert_eq!(first_beat_max_output_tokens(&unset, Some(1024)), Some(256));
    assert_eq!(first_beat_max_output_tokens(&unset, None), Some(48));
    let reply = NanoReplyRequest { prompt: nano_prompt(PromptMode::NanoReply, Some(1024)) };
    assert_eq!(nano_reply_max_output_tokens(&reply), Some(256));
    let default_reply = NanoReplyRequest { prompt: nano_prompt(PromptMode::NanoReply, Some(0)) };
    assert_eq!(nano_reply_max_output_tokens(&default_reply), Some(192));
    let ambient = AmbientRequest { prompt: nano_prompt(PromptMode::AmbientLine, None) };
    assert_eq!(ambient_max_output_tokens(&ambient), Some(40));
}

#[test]
fn normalized_memory_text_is_single_spaced_words() {
    assert_eq!(normalize_memory_text("Your cat is Mocha."), "your cat is mocha");
    for input in ["  Hello,\tWORLD!!  again ", "--", "", "a  b\n\nc", "Ünïcode — text; 42"] {
        let r = normalize_memory_text(input);
        assert!(r.chars().all(|c| c == ' ' || c.is_alphanumeric()), "{r:?}");
        assert!(!r.starts_with(' ') && !r.ends_with(' ') && !r.contains("  "), "{r:?}");
        assert_eq!(normalize_memory_text(&r), r);
    }
}
