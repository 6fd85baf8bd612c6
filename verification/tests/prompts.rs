use rust_core::prompt_translator::{legacy_tool_request_repair, JsonField, ToolRequestFields};
use rust_core::prompt_translator::{
    classify_unparsed_output, dedupe_strings, extract_fenced_blocks, extract_json_candidates,
    extract_json_span, filter_memory_candidates, finalize_visible_delivery, infer_tool_name,
    sanitize_memory_text, ParsedTurnOutputKind,
};
use rust_core::prompt_translator::{
    leading_span, looks_like_internal_payload, normalize_text_key, sanitize_visible_text,
    stitch_visible_sections, strip_markdown_artifacts, trim_duplicate_prefix,
    AmbientLineTranslationRequest, BeatPromptContext, BehaviorPolicy, CompiledPromptArtifact,
    FirstBeatTranslationRequest, PromptConfig, PromptError, PromptMemory, PromptMode,
    PromptModeConfig, PromptOutputContract, PromptOutputFormat, PromptTaskFrame,
    PromptTranslator,
};
use rust_core::{ChatMessage, InputSource, MessageContentType};

#[test]
fn prompt_config_preserves_legacy_strings() {
    let config = PromptConfig::from_legacy_strings("system", "memory", "tools", "json");
    let shared = config.shared_config();

    assert_eq!(shared.assistant_identity, "system");
    assert_eq!(shared.memory_preamble, "memory");
    assert_eq!(shared.tool_instructions, "tools");
    assert_eq!(shared.response_contract, "json");
}

fn messages(count: usize) -> Vec<ChatMessage> {
    (0..count)
        .map(|index| ChatMessage {
            id: index as i64,
            role: "user".to_owned(),
            content: format!("message {index}"),
            turn_id: format!("turn-{index}"),
            input_source: InputSource::Text,
            created_at: "2026-03-13T00:00:00Z".to_owned(),
            content_type: MessageContentType::PlainText,
            display_json: None,
            visible_summary: None,
        })
        .collect()
}

#[test]
fn first_beat_prompt_trims_context_budget() {
    let translator = PromptTranslator::new(PromptConfig::default());
    let messages = messages(6);
    let prompt = translator
        .compile_first_beat(&FirstBeatTranslationRequest {
            user_text: "hello",
            input_source: InputSource::Text,
            recent_messages: &messages,
            policy: &BehaviorPolicy::direct_turn(),
        })
        .expect("first beat prompt should compile");

    assert!(prompt.prompt.contains("message 5"));
    assert!(!prompt.prompt.contains("message 0"));
}

#[test]
fn task_frame_compiles_first_beat_to_nano_prompt() {
    let translator = PromptTranslator::new(PromptConfig::default());
    let artifact = translator
        .compile_task_frame(&PromptTaskFrame {
            mode: PromptMode::FirstBeat,
            output_contract: PromptOutputContract::PlainText,
            user_text: Some("hello"),
            source_text: None,
            status_text: None,
            event_type: None,
            payload_json: None,
            context: BeatPromptContext {
                input_source: Some(InputSource::Text),
                first_beat: None,
                recent_messages: &[],
                semantic_memories: &[],
                context_level: None,
                policy: &BehaviorPolicy::direct_turn(),
                prefer_memory_facts: false,
                include_tool_guidance: false,
            },
        })
        .expect("task frame should compile");

    match artifact {
        CompiledPromptArtifact::Nano(prompt) => {
            assert_eq!(prompt.mode, PromptMode::FirstBeat);
            assert!(prompt.prompt.contains("hello"));
        }
        CompiledPromptArtifact::Cloud(_) => panic!("first beat task frame compiled to cloud"),
    }
}

#[test]
fn ambient_prompt_compacts_payload() {
    let translator = PromptTranslator::new(PromptConfig::default());
    let payload = format!(
        "{{\"capability\":\"spotify\",\"details\":\"{}\"}}",
        "x".repeat(400)
    );
    let prompt = translator
        .compile_ambient_line(&AmbientLineTranslationRequest {
            event_type: "capability_available",
            payload_json: &payload,
            recent_messages: &[],
            policy: &BehaviorPolicy::ambient_turn(),
        })
        .expect("ambient prompt should compile");

    assert!(prompt.prompt.contains("capability_available"));
    assert!(prompt.prompt.contains("spotify"));
}

#[test]
fn cloud_reasoning_task_frame_omits_first_beat_instruction_when_empty() {
    let translator = PromptTranslator::new(PromptConfig::default());
    let artifact = translator
        .compile_task_frame(&PromptTaskFrame {
            mode: PromptMode::CloudReasoning,
            output_contract: PromptOutputContract::JsonEnvelope,
            user_text: Some("Explain this"),
            source_text: None,
            status_text: None,
            event_type: None,
            payload_json: None,
            context: BeatPromptContext {
                input_source: None,
                first_beat: Some(""),
                recent_messages: &[],
                semantic_memories: &[],
                context_level: None,
                policy: &BehaviorPolicy::direct_turn(),
                prefer_memory_facts: false,
                include_tool_guidance: false,
            },
        })
        .expect("cloud task frame should compile");

    match artifact {
        CompiledPromptArtifact::Cloud(request) => {
            let rendered = request
                .messages
                .iter()
                .map(|message| message.content.as_str())
                .collect::<Vec<_>>()
                .join("\n");
            assert!(!rendered.contains("The first visible beat already shown"));
            assert!(rendered.contains("Explain this"));
        }
        CompiledPromptArtifact::Nano(_) => panic!("cloud task frame compiled to nano"),
    }
}

#[test]
fn task_frame_errors_name_the_missing_field() {
    let translator = PromptTranslator::new(PromptConfig::default());
    let frame = PromptTaskFrame {
        mode: PromptMode::FirstBeat,
        output_contract: PromptOutputContract::JsonEnvelope,
        user_text: Some("hello"),
        source_text: None,
        status_text: None,
        event_type: None,
        payload_json: None,
        context: BeatPromptContext {
            input_source: None,
            first_beat: None,
            recent_messages: &[],
            semantic_memories: &[],
            context_level: None,
            policy: &BehaviorPolicy::direct_turn(),
            prefer_memory_facts: false,
            include_tool_guidance: false,
        },
    };
    assert!(matches!(
        translator.compile_task_frame(&frame),
        Err(PromptError::PlainTextRequired(PromptMode::FirstBeat))
    ));
    let frame = PromptTaskFrame {
        output_contract: PromptOutputContract::PlainText,
        ..frame
    };
    assert!(matches!(
        translator.compile_task_frame(&frame),
        Err(PromptError::MissingField(PromptMode::FirstBeat, _))
    ));
    let frame = PromptTaskFrame {
        mode: PromptMode::SummaryBridge,
        ..frame
    };
    assert!(matches!(
        translator.compile_task_frame(&frame),
        Err(PromptError::NotImplemented(PromptMode::SummaryBridge))
    ));
}

#[test]
fn nano_reply_prompt_lists_selected_memories() {
    let translator = PromptTranslator::new(PromptConfig::default());
    let memories = vec![
        PromptMemory {
            kind: "fact".to_owned(),
            text: "Mocha   is your cat.".to_owned(),
        },
        PromptMemory {
            kind: "summary".to_owned(),
            text: "{\"assistant_reply\":\"raw\"}".to_owned(),
        },
    ];
    let prompt = translator
        .compile_nano_reply(&rust_core::prompt_translator::NanoReplyTranslationRequest {
            user_text: "who is Mocha",
            first_beat: "Let me think.",
            recent_messages: &[],
            semantic_memories: &memories,
            context_level: rust_core::ContextLevel::Medium,
            policy: &BehaviorPolicy::direct_turn(),
            prefer_memory_facts: true,
        })
        .expect("nano reply prompt should compile");
    assert!(prompt.prompt.contains("- [fact] Mocha is your cat."));
    assert!(!prompt.prompt.contains("assistant_reply"));
    assert!(prompt.prompt.contains("Previous Context setting: medium."));
    assert!(prompt.prompt.contains("First beat already shown: \"Let me think.\""));
    assert!(prompt.prompt.contains("Length: under 60 words."));
    assert_eq!(prompt.max_output_tokens, Some(128));
}

#[test]
fn merged_mode_config_keeps_json_for_json_modes() {
    let configured = PromptModeConfig {
        instruction: "   ".to_owned(),
        max_context_messages: 0,
        max_memory_items: 2,
        max_words: None,
        max_output_tokens: Some(10),
        output_format: PromptOutputFormat::PlainText,
    };
    let merged = PromptModeConfig::merge_defaults(PromptMode::CloudReasoning, &configured);
    assert_eq!(merged.output_format, PromptOutputFormat::JsonEnvelope);
    assert_eq!(merged.max_context_messages, 8);
    assert_eq!(merged.max_memory_items, 2);
    assert_eq!(merged.max_output_tokens, Some(10));
    assert!(merged.instruction.starts_with("Continue the answer"));
}

#[test]
fn trim_duplicate_prefix_removes_normalized_duplicate_opening_sentence() {
    let continuation = trim_duplicate_prefix(
        "Sure, let's fix Spotify.",
        "Sure let's fix Spotify. Start by reconnecting your account.",
    );

    assert_eq!(continuation, "Start by reconnecting your account.");
}

#[test]
fn trim_duplicate_prefix_strips_known_filler_opener_only_at_start() {
    let continuation = trim_duplicate_prefix(
        "Checking that now.",
        "Okay, the speaker was offline for a moment.",
    );

    assert_eq!(continuation, "the speaker was offline for a moment.");
}

#[test]
fn trim_duplicate_prefix_keeps_substantive_continuation_content() {
    let continuation = trim_duplicate_prefix(
        "I found the issue.",
        "The device was offline, so I switched playback to Denon.",
    );

    assert_eq!(
        continuation,
        "The device was offline, so I switched playback to Denon."
    );
}

#[test]
fn trim_duplicate_prefix_drops_a_repeated_first_beat() {
    assert_eq!(
        trim_duplicate_prefix("On it.", "On it. - Playing now."),
        "Playing now."
    );
    assert_eq!(trim_duplicate_prefix("", "  Hello  "), "Hello");
}

#[test]
fn leading_span_stops_at_terminators_or_byte_budget() {
    assert_eq!(leading_span("  Hello there. More", 96, &vec!['.']), "Hello there");
    assert_eq!(leading_span("abcdef", 3, &vec!['.']), "abc");
    assert_eq!(leading_span("   ", 3, &vec!['.']), "");
}

#[test]
fn visible_text_hides_internal_payloads() {
    assert!(looks_like_internal_payload("{\"a\": 1}"));
    assert!(!looks_like_internal_payload("{not json}"));
    assert!(looks_like_internal_payload("here: assistant_reply: hi"));
    assert!(looks_like_internal_payload("```json\n{}"));
    assert_eq!(sanitize_visible_text("  \"Hi there\"  "), "Hi there");
    assert_eq!(sanitize_visible_text("[1, 2]"), "");
    assert_eq!(stitch_visible_sections("Sure.", "More detail."), "Sure.\n\nMore detail.");
    assert_eq!(stitch_visible_sections("  ", "More detail."), "More detail.");
}

#[test]
fn compose_visible_reply_falls_back_to_first_beat() {
    let translator = PromptTranslator::new(PromptConfig::default());
    assert_eq!(
        translator.compose_visible_reply("Sure.", "{\"assistant_reply\":\"x\"}", None),
        "Sure."
    );
    assert_eq!(
        translator.compose_visible_reply("Sure.", "Playing now.", Some("Spotify is playing.")),
        "Sure.\n\nPlaying now.\n\nSpotify is playing."
    );
}

#[test]
fn markdown_and_keys_are_normalised() {
    assert_eq!(strip_markdown_artifacts("```json {a} ```\n`x`"), "{a} x");
    assert_eq!(normalize_text_key("Sure, let's fix Spotify."), "sure lets fix spotify");
}

#[test]
fn memory_recall_prompt_uses_compact_memory_facts() {
    let translator = PromptTranslator::new(PromptConfig::default());
    let memories = vec![
        PromptMemory {
            kind: "fact".to_owned(),
            text: "Mocha is your cat arriving on Tuesday evening.".to_owned(),
        },
        PromptMemory {
            kind: "summary".to_owned(),
            text: "```json {\"assistant_reply\":\"raw\"} ```".to_owned(),
        },
    ];
    let prompt = translator
        .compile_memory_backed_recall(&rust_core::prompt_translator::MemoryRecallTranslationRequest {
            user_text: "Who's Mocha?",
            recent_messages: &[],
            semantic_memories: &memories,
            policy: &BehaviorPolicy::direct_turn(),
        })
        .expect("memory recall prompt should compile");

    assert!(prompt.nano_prompt.prompt.contains("Mocha is your cat"));
    assert!(!prompt.nano_prompt.prompt.contains("\"assistant_reply\""));
    assert!(prompt
        .nano_prompt
        .prompt
        .contains("User question: Who's Mocha?"));
}

#[test]
fn followup_and_bridge_prompts_carry_the_first_beat() {
    let translator = PromptTranslator::new(PromptConfig::default());
    let messages = messages(10);
    let followup = translator
        .compile_followup(&rust_core::prompt_translator::FollowupTranslationRequest {
            user_text: "go on",
            first_beat: "Sure.",
            recent_messages: &messages,
            semantic_memories: &[],
            context_level: rust_core::ContextLevel::Low,
            policy: &BehaviorPolicy::direct_turn(),
            include_tool_guidance: true,
        })
        .expect("followup compiles");
    assert_eq!(followup.nano_prompt.mode, PromptMode::FollowupReasoning);
    assert!(followup.nano_prompt.prompt.contains("First beat already shown: \"Sure.\""));
    assert!(followup.nano_prompt.prompt.contains("Supported tools are spotify and hue."));
    let cloud = &followup.cloud_request.messages;
    assert_eq!(cloud.last().map(|m| m.role.as_str()), Some("user"));
    assert_eq!(cloud.last().map(|m| m.content.as_str()), Some("go on"));
    assert_eq!(cloud.iter().filter(|m| m.role == "user" && m.content.starts_with("message")).count(), 8);
    let bridge = translator
        .compile_summary_bridge(&rust_core::prompt_translator::SummaryBridgeTranslationRequest {
            first_beat: "On it.",
            source_text: "The   long answer.",
            recent_messages: &[],
            semantic_memories: &[],
            policy: &BehaviorPolicy::direct_turn(),
        })
        .expect("bridge compiles");
    assert!(bridge.nano_prompt.prompt.contains("Source answer to condense: The long answer."));
    assert_eq!(bridge.cloud_request.messages.len(), 3);
}

#[test]
fn output_candidates_come_from_fences_and_spans() {
    assert_eq!(
        extract_fenced_blocks("a ```json\n{\"x\":1}\n``` b ```c``` d ```e"),
        vec!["{\"x\":1}", "c"]
    );
    assert_eq!(extract_json_span("say {\"a\": [1]} ok", '{', '}'), Some("{\"a\": [1]}".to_owned()));
    assert_eq!(extract_json_span("} {", '{', '}'), None);
    let candidates = extract_json_candidates("```json\n{\"assistant_reply\":\"Hi\"}\n```");
    assert_eq!(candidates, vec!["```json\n{\"assistant_reply\":\"Hi\"}\n```"]);
    let mixed = extract_json_candidates("Reply: {\"a\": 1} and [2]");
    assert_eq!(mixed, vec!["Reply: {\"a\": 1} and [2]", "{\"a\": 1}", "[2]"]);
    assert!(extract_json_candidates("   ").is_empty());
    assert_eq!(infer_tool_name("start_auth"), Some("spotify"));
    assert_eq!(infer_tool_name("set_color"), Some("hue"));
    assert_eq!(infer_tool_name("dance"), None);
    assert_eq!(
        classify_unparsed_output("```json\n{\"assistant_reply\":\"Hello\",\"tool_request\":\n```"),
        ParsedTurnOutputKind::SuppressedInternalPayload
    );
    assert_eq!(classify_unparsed_output("Hello"), ParsedTurnOutputKind::PlainTextFallback);
}

#[test]
fn memory_candidates_are_sanitised_and_deduplicated() {
    let kept = filter_memory_candidates(&vec![
        ("fact".to_owned(), "Mocha is your cat.".to_owned()),
        ("fact".to_owned(), "mocha is your CAT".to_owned()),
        ("fact".to_owned(), "short".to_owned()),
        ("fact".to_owned(), "{\"tool\": \"x\"}".to_owned()),
        ("preference".to_owned(), "You like green tea.".to_owned()),
    ]);
    assert_eq!(kept.len(), 2);
    assert_eq!(kept[0].0, 0);
    assert_eq!(kept[1].0, 4);
    assert_eq!(kept[1].2, "You like green tea.");
    assert_eq!(sanitize_memory_text("prompt-debug: x", 180), "");
    assert_eq!(
        dedupe_strings(vec!["A b".to_owned(), "a B!".to_owned(), "c".to_owned()]),
        vec!["A b", "c"]
    );
}

#[test]
fn final_delivery_prefers_direct_cloud_text() {
    let delivery = finalize_visible_delivery(
        "cloud_result_direct",
        "Sure.",
        "parsed",
        ParsedTurnOutputKind::Structured,
        None,
        Some("From the cloud."),
    );
    assert_eq!(delivery.assistant_text, "Sure.\n\nFrom the cloud.");
    assert!(delivery.was_direct);
    assert!(!delivery.was_bridged);
    let bridged = finalize_visible_delivery(
        "tool_result_with_nano_bridge",
        "",
        "Done.",
        ParsedTurnOutputKind::SuppressedInternalPayload,
        Some("Lights on."),
        None,
    );
    assert_eq!(bridged.assistant_text, "Done.\n\nLights on.");
    assert!(bridged.was_bridged);
    assert!(bridged.was_suppressed);
}

#[test]
fn duplicate_prefix_is_only_removed_from_the_front() {
    let cases = [
        ("Sure.", "Sure. Gravity bends spacetime."),
        ("Gravity is the pull between masses.", "  Gravity is the pull between masses!  It keeps orbits stable. "),
        ("On it.", "Okay, here is the longer answer."),
        ("", "  Plain continuation.  "),
        ("Hello there.", "Something else entirely."),
    ];
    for (first, continuation) in cases {
        let result = trim_duplicate_prefix(first, continuation);
        assert!(continuation.trim().ends_with(result.as_str()), "{first:?} / {continuation:?} -> {result:?}");
        assert_eq!(result, result.trim());
    }
    assert_eq!(trim_duplicate_prefix("Sure.", "Sure. Gravity bends spacetime."), "Gravity bends spacetime.");
    assert_eq!(trim_duplicate_prefix("", "  Plain continuation.  "), "Plain continuation.");
}

#[test]
fn legacy_tool_request_shape_is_repaired() {
    let legacy = legacy_tool_request_repair(&ToolRequestFields {
        action: JsonField::Absent,
        name: JsonField::Text("start_auth".to_owned()),
        has_tool: false,
        has_arguments: false,
    });
    assert!(legacy.action_from_name);
    assert_eq!(legacy.inferred_tool, Some("spotify"));
    assert!(legacy.add_empty_arguments);
    let current = legacy_tool_request_repair(&ToolRequestFields {
        action: JsonField::Text("set_color".to_owned()),
        name: JsonField::Text("start_auth".to_owned()),
        has_tool: false,
        has_arguments: true,
    });
    assert!(!current.action_from_name);
    assert_eq!(current.inferred_tool, Some("hue"));
    assert!(!current.add_empty_arguments);
    let named_tool = legacy_tool_request_repair(&ToolRequestFields {
        action: JsonField::Text("dance".to_owned()),
        name: JsonField::Absent,
        has_tool: true,
        has_arguments: true,
    });
    assert_eq!(named_tool.inferred_tool, None);
    let odd = legacy_tool_request_repair(&ToolRequestFields {
        action: JsonField::Absent,
        name: JsonField::Other,
        has_tool: false,
        has_arguments: true,
    });
    assert!(odd.action_from_name);
    assert_eq!(odd.inferred_tool, None);
}

fn json_field_of(object: &serde_json::Map<String, serde_json::Value>, key: &str) -> JsonField {
    match object.get(key) {
        None => JsonField::Absent,
        Some(serde_json::Value::String(text)) => JsonField::Text(text.clone()),
        Some(_) => JsonField::Other,
    }
}

#[test]
fn parses_legacy_tool_request_shape() {
    let raw = r#"{"assistant_reply":"Starting Spotify sign-in.","tool_request":{"name":"start_auth","arguments":{}},"memory_candidates":[]}"#;
    let candidates = extract_json_candidates(raw);
    let value: serde_json::Value = serde_json::from_str(&candidates[0]).expect("envelope should parse");
    let request = value["tool_request"].as_object().expect("missing tool request");
    let repair = legacy_tool_request_repair(&ToolRequestFields {
        action: json_field_of(request, "action"),
        name: json_field_of(request, "name"),
        has_tool: request.contains_key("tool"),
        has_arguments: request.contains_key("arguments"),
    });
    assert!(repair.action_from_name);
    assert_eq!(request["name"].as_str(), Some("start_auth"));
    assert_eq!(repair.inferred_tool, Some("spotify"));
    assert!(!repair.add_empty_arguments);
}

#[test]
fn parses_fenced_json_envelope_before_plain_fallback() {
    let raw = "```json\n{\"assistant_reply\":\"Hello again.\",\"tool_request\":null,\"memory_candidates\":[]}\n```";
    let envelope = extract_json_candidates(raw)
        .into_iter()
        .flat_map(|candidate| {
            let span = extract_json_span(&candidate, '{', '}');
            std::iter::once(candidate).chain(span)
        })
        .filter_map(|candidate| serde_json::from_str::<serde_json::Value>(&candidate).ok())
        .find(|value| value.get("assistant_reply").is_some())
        .expect("fenced envelope should be a candidate");
    assert_eq!(envelope["assistant_reply"].as_str(), Some("Hello again."));
}

#[test]
fn suppresses_internal_payload_when_json_wrapper_is_broken() {
    let raw = "```json\n{\"assistant_reply\":\"Hello\",\"tool_request\":\n```";
    for candidate in extract_json_candidates(raw) {
        assert!(serde_json::from_str::<serde_json::Value>(&candidate).is_err());
        if let Some(span) = extract_json_span(&candidate, '{', '}') {
            assert!(serde_json::from_str::<serde_json::Value>(&span).is_err());
        }
    }
    assert_eq!(classify_unparsed_output(raw), ParsedTurnOutputKind::SuppressedInternalPayload);
}
