use rust_core::clock::{ambient_cooldown_elapsed, cooldown_elapsed_at, now_rfc3339};
use rust_core::conversation::ContextLevel;
use rust_core::memory::types::HydrateWorkingMemoryRequest;
use rust_core::memory::working::{derive_starter_snapshot, WorkingMemoryLimits};
use rust_core::model_runtime::{nano_log_entry, NanoPromptResponse, NanoSnapshot};

const NOON: i128 = 1_773_576_000_000_000_000;
const SECOND: i128 = 1_000_000_000;

#[test]
fn cooldown_has_elapsed_when_nothing_was_recorded() {
    assert!(cooldown_elapsed_at(None, NOON, 60));
    assert!(ambient_cooldown_elapsed(None, u64::MAX - 1));
}

#[test]
fn cooldown_has_elapsed_when_the_record_is_not_rfc3339() {
    assert!(cooldown_elapsed_at(Some("yesterday at noon"), NOON, 3600));
    assert!(ambient_cooldown_elapsed(Some(""), 3600));
}

#[test]
fn cooldown_counts_whole_seconds_since_the_record() {
    let last = Some("2026-03-15T12:00:00Z");
    assert!(cooldown_elapsed_at(last, NOON + 60 * SECOND, 60));
    assert!(!cooldown_elapsed_at(last, NOON + 60 * SECOND - 100_000_000, 60));
    assert!(cooldown_elapsed_at(last, NOON + 59 * SECOND, 59));
    assert!(cooldown_elapsed_at(last, NOON, 0));
}

#[test]
fn cooldown_reads_the_offset_of_the_record() {
    let last = Some("2026-03-15T13:00:00+01:00");
    assert!(cooldown_elapsed_at(last, NOON + 60 * SECOND, 60));
    assert!(!cooldown_elapsed_at(last, NOON + 60 * SECOND, 61));
}

#[test]
fn cooldown_rounds_a_negative_span_toward_zero() {
    let last = Some("2026-03-15T12:00:00.5Z");
    assert!(cooldown_elapsed_at(last, NOON, 0));
    assert!(!cooldown_elapsed_at(Some("2026-03-15T12:00:01.5Z"), NOON, 0));
}

#[test]
fn cooldown_above_i64_max_wraps_negative() {
    let last = Some("2026-03-15T12:00:00Z");
    assert!(cooldown_elapsed_at(last, NOON, u64::MAX));
    assert!(cooldown_elapsed_at(last, NOON, 1u64 << 63));
    assert!(!cooldown_elapsed_at(last, NOON, 1u64 << 62));
}

#[test]
fn ambient_cooldown_uses_the_clock() {
    assert!(!ambient_cooldown_elapsed(Some("9999-01-01T00:00:00Z"), 0));
    assert!(ambient_cooldown_elapsed(Some("2001-01-01T00:00:00Z"), 3600));
    let stamped = now_rfc3339();
    assert!(!ambient_cooldown_elapsed(Some(stamped.as_str()), 3600));
    assert!(ambient_cooldown_elapsed(Some(stamped.as_str()), 0));
}

#[test]
fn nano_log_entry_is_stamped_now() {
    let response = NanoPromptResponse {
        text: "Sure.".to_owned(),
        snapshot: NanoSnapshot::disabled(),
        prompt: "say sure".to_owned(),
        latency_ms: 12,
        error_text: None,
        requested_max_output_tokens: None,
        effective_max_output_tokens: None,
    };
    let entry = nano_log_entry("nano_first_beat", &response);
    assert_eq!(entry.model_name, "Nano first beat");
    assert_eq!(entry.prompt, "say sure");
    assert_eq!(entry.raw_output, "Sure.");
    assert_eq!(entry.latency_ms, 12);
    assert_eq!(entry.http_status, Some(200));
    assert!(!ambient_cooldown_elapsed(Some(entry.created_at.as_str()), 3600));
}

#[test]
fn derive_starter_snapshot_is_stamped_now() {
    let request = HydrateWorkingMemoryRequest {
        turn_id: "turn-1".to_owned(),
        user_text: "My cat is Mocha".to_owned(),
        context_level: ContextLevel::Medium,
        exclude_message_id: None,
        latest_turn_summary: None,
    };
    let snapshot = derive_starter_snapshot(&request, &[], &WorkingMemoryLimits::standard());
    assert_eq!(snapshot.focus_thread_key.as_deref(), Some("thread:cat_mocha"));
    assert!(!ambient_cooldown_elapsed(Some(snapshot.created_at.as_str()), 3600));
    assert!(!ambient_cooldown_elapsed(Some(snapshot.threads[0].last_touched_at.as_str()), 3600));
}

#[test]
fn now_rfc3339_is_utc_rfc3339_text() {
    let stamp = now_rfc3339();
    let chars: Vec<char> = stamp.chars().collect();
    assert!(chars.len() >= 20);
    assert_eq!((chars[4], chars[7], chars[10], chars[13], chars[16]), ('-', '-', 'T', ':', ':'));
    assert_eq!(chars.last(), Some(&'Z'));
    assert!(chars[..4].iter().all(|c| c.is_ascii_digit()));
}
