//! Arithmetic and lookups behind the usage statistics and trace views.
use vstd::prelude::*;

use crate::logging::{DiagnosticIssue, ModelTraceEntry, UsageStats};
use crate::memory::recall::{first_index, lemma_first_index, lemma_first_index_none, take_at_most};
use crate::text::{append_str, chars_eq_str, chars_lt, chars_of, str_lt, string_of};

verus! {

/// `tokens * 1000 / latency_ms` rounded to the nearest integer, halves away from zero.
pub open spec fn rounded_rate(tokens: int, latency_ms: int) -> int {
    (2000 * tokens + latency_ms) / (2 * latency_ms)
}

/// The average output rate in tokens per second: present only where both totals
/// are known and positive; a rate beyond `i64::MAX` reads as `i64::MAX`.
pub open spec fn spec_average_tokens_per_second(
    total_output_tokens: Option<i64>,
    total_latency_ms: Option<i64>,
) -> Option<i64> {
    match (total_output_tokens, total_latency_ms) {
        (Some(t), Some(l)) => if t <= 0 || l <= 0 {
            None
        } else if rounded_rate(t as int, l as int) > i64::MAX {
            Some(i64::MAX)
        } else {
            Some(rounded_rate(t as int, l as int) as i64)
        },
        _ => None,
    }
}

pub fn compute_average_tokens_per_second(
    total_output_tokens: Option<i64>,
    total_latency_ms: Option<i64>,
) -> (r: Option<i64>)
    ensures
        r == spec_average_tokens_per_second(total_output_tokens, total_latency_ms),
{
    let tokens = match total_output_tokens {
        Some(t) => t,
        None => return None,
    };
    let latency_ms = match total_latency_ms {
        Some(l) => l,
        None => return None,
    };
    if tokens <= 0 || latency_ms <= 0 {
        return None;
    }
    let numerator: i128 = 2000 * (tokens as i128) + (latency_ms as i128);
    let denominator: i128 = 2 * (latency_ms as i128);
    let q: i128 = numerator / denominator;
    assert(q == rounded_rate(tokens as int, latency_ms as int));
    if q > (i64::MAX as i128) {
        Some(i64::MAX)
    } else {
        Some(q as i64)
    }
}

/// The text of the first entry filed under `slot`.
pub open spec fn first_slot_text(entries: Seq<(Seq<char>, Seq<char>)>, slot: Seq<char>) -> Option<
    Seq<char>,
>
    decreases entries.len(),
{
    if entries.len() == 0 {
        None
    } else if entries[0].0 == slot {
        Some(entries[0].1)
    } else {
        first_slot_text(entries.drop_first(), slot)
    }
}

pub open spec fn pairs_view(v: Seq<(String, String)>) -> Seq<(Seq<char>, Seq<char>)> {
    v.map_values(|p: (String, String)| (p.0@, p.1@))
}

/// The text of the first attachment filed under `slot`, if there are attachments.
pub fn payload_slot_text(attachments: Option<&Vec<(String, String)>>, slot: &str) -> (r: Option<
    String,
>)
    ensures
        ({
            let expected = match attachments {
                Some(v) => first_slot_text(pairs_view(v@), slot@),
                None => None,
            };
            match (r, expected) {
                (Some(s), Some(t)) => s@ == t,
                (None, None) => true,
                _ => false,
            }
        }),
{
    match attachments {
        None => None,
        Some(entries) => {
            let ghost pv = pairs_view(entries@);
            let mut i: usize = 0;
            assert(pv.skip(0) =~= pv);
            while i < entries.len()
                invariant
                    i <= entries.len(),
                    attachments == Some(entries),
                    pv == pairs_view(entries@),
                    pv.len() == entries.len(),
                    first_slot_text(pv.skip(i as int), slot@) == first_slot_text(pv, slot@),
                decreases entries.len() - i,
            {
                let key = chars_of_string(&entries[i].0);
                assert(pv[i as int] == (entries@[i as int].0@, entries@[i as int].1@));
                assert(pv.skip(i as int)[0] == pv[i as int]);
                assert(pv.skip(i as int).drop_first() =~= pv.skip(i + 1));
                if chars_eq_str(&key, slot) {
                    let text = entries[i].1.clone();
                    return Some(text);
                }
                i = i + 1;
            }
            None
        },
    }
}

fn chars_of_string(s: &String) -> (v: Vec<char>)
    ensures
        v@ == s@,
{
    crate::text::chars_of(s.as_str())
}

// ---------------------------------------------------------------------------
// Usage statistics, diagnostics and model traces
// ---------------------------------------------------------------------------

/// A model's usage from its logs' totals: `calls`, the token and latency sums
/// (none where no log records them), and the average and latest latency
/// (asked for only where there are calls). Missing token sums read as zero
/// unless `prefer_missing_tokens`; the rate is the average output rate.
pub fn usage_stats(
    calls: i64,
    total_input_tokens: Option<i64>,
    total_output_tokens: Option<i64>,
    total_latency_ms: Option<i64>,
    average_latency_ms: Option<i64>,
    latest_latency_ms: Option<i64>,
    prefer_missing_tokens: bool,
) -> (r: UsageStats)
    ensures
        r.calls == calls,
        r.tokens_in == (if prefer_missing_tokens {
            total_input_tokens
        } else {
            Some(total_input_tokens.unwrap_or(0))
        }),
        r.tokens_out == (if prefer_missing_tokens {
            total_output_tokens
        } else {
            Some(total_output_tokens.unwrap_or(0))
        }),
        r.latency_avg_ms == (if calls > 0 {
            average_latency_ms
        } else {
            None
        }),
        r.latency_latest_ms == (if calls > 0 {
            latest_latency_ms
        } else {
            None
        }),
        r.tokens_per_second == spec_average_tokens_per_second(total_output_tokens, total_latency_ms),
{
    UsageStats {
        calls,
        tokens_in: if prefer_missing_tokens {
            total_input_tokens
        } else {
            Some(total_input_tokens.unwrap_or(0))
        },
        tokens_out: if prefer_missing_tokens {
            total_output_tokens
        } else {
            Some(total_output_tokens.unwrap_or(0))
        },
        latency_avg_ms: if calls > 0 {
            average_latency_ms
        } else {
            None
        },
        latency_latest_ms: if calls > 0 {
            latest_latency_ms
        } else {
            None
        },
        tokens_per_second: compute_average_tokens_per_second(total_output_tokens, total_latency_ms),
    }
}

/// The usage of a cloud profile that is not selected: no calls, no tokens.
pub fn idle_usage_stats() -> (r: UsageStats)
    ensures
        r.calls == 0,
        r.tokens_in == Some(0i64),
        r.tokens_out == Some(0i64),
        r.latency_avg_ms is None,
        r.latency_latest_ms is None,
        r.tokens_per_second is None,
{
    UsageStats {
        calls: 0,
        tokens_in: Some(0),
        tokens_out: Some(0),
        latency_avg_ms: None,
        latency_latest_ms: None,
        tokens_per_second: None,
    }
}

/// The issue a failed model call raises: an error of the model subsystem,
/// summarised by its error text, detailed by the model's name.
pub fn model_issue(timestamp: String, error_text: String, model_name: Option<String>) -> (r: DiagnosticIssue)
    ensures
        r.timestamp == timestamp,
        r.subsystem@ == "model"@,
        r.level@ == "error"@,
        r.summary == error_text,
        r.detail == model_name,
{
    DiagnosticIssue {
        timestamp,
        subsystem: "model".to_owned(),
        level: "error".to_owned(),
        summary: error_text,
        detail: model_name,
    }
}

/// The issue a failed tool call raises: a warning of `tool:` and the tool's
/// name, summarised by the result's message (else a fixed notice), detailed
/// by `action=` and the action.
pub fn tool_issue(timestamp: String, tool_name: &str, action: &str, message: Option<String>) -> (r:
    DiagnosticIssue)
    ensures
        r.timestamp == timestamp,
        r.subsystem@ == "tool:"@ + tool_name@,
        r.level@ == "warning"@,
        r.summary@ == (match message {
            Some(m) => m@,
            None => "Tool action failed."@,
        }),
        r.detail matches Some(d) && d@ == "action="@ + action@,
{
    let mut subsystem = chars_of("tool:");
    append_str(&mut subsystem, tool_name);
    let mut detail = chars_of("action=");
    append_str(&mut detail, action);
    DiagnosticIssue {
        timestamp,
        subsystem: string_of(&subsystem),
        level: "warning".to_owned(),
        summary: match message {
            Some(m) => m,
            None => "Tool action failed.".to_owned(),
        },
        detail: Some(string_of(&detail)),
    }
}

pub open spec fn later_flags(sorted: Seq<DiagnosticIssue>, x: DiagnosticIssue) -> Seq<bool> {
    sorted.map_values(|e: DiagnosticIssue| chars_lt(e.timestamp@, x.timestamp@))
}

/// The issues stably ordered newest first (by timestamp text).
pub open spec fn newest_first(s: Seq<DiagnosticIssue>) -> Seq<DiagnosticIssue>
    decreases s.len(),
{
    if s.len() == 0 {
        s
    } else {
        let r = newest_first(s.drop_last());
        let pos = match first_index(later_flags(r, s.last())) {
            Some(j) => j,
            None => r.len() as int,
        };
        r.insert(pos, s.last())
    }
}

fn clone_issue(i: &DiagnosticIssue) -> (r: DiagnosticIssue)
    ensures
        r == *i,
{
    DiagnosticIssue {
        timestamp: i.timestamp.clone(),
        subsystem: i.subsystem.clone(),
        level: i.level.clone(),
        summary: i.summary.clone(),
        detail: match &i.detail {
            Some(d) => Some(d.clone()),
            None => None,
        },
    }
}

/// The diagnostics shown: the model issues, then the tool issues, newest
/// first, at most twelve.
pub fn merge_diagnostic_issues(model_issues: Vec<DiagnosticIssue>, tool_issues: Vec<DiagnosticIssue>) -> (r:
    Vec<DiagnosticIssue>)
    ensures
        r@ == take_at_most(newest_first(model_issues@ + tool_issues@), 12),
{
    let mut all: Vec<DiagnosticIssue> = Vec::new();
    let mut i: usize = 0;
    while i < model_issues.len()
        invariant
            i <= model_issues.len(),
            all@ == model_issues@.take(i as int),
        decreases model_issues.len() - i,
    {
        all.push(clone_issue(&model_issues[i]));
        i = i + 1;
        assert(all@ =~= model_issues@.take(i as int));
    }
    assert(model_issues@.take(model_issues.len() as int) =~= model_issues@);
    let mut k: usize = 0;
    while k < tool_issues.len()
        invariant
            k <= tool_issues.len(),
            all@ == model_issues@ + tool_issues@.take(k as int),
        decreases tool_issues.len() - k,
    {
        all.push(clone_issue(&tool_issues[k]));
        k = k + 1;
        assert(all@ =~= model_issues@ + tool_issues@.take(k as int));
    }
    assert(tool_issues@.take(tool_issues.len() as int) =~= tool_issues@);
    let mut out: Vec<DiagnosticIssue> = Vec::new();
    let mut m: usize = 0;
    while m < all.len()
        invariant
            m <= all.len(),
            out@ == newest_first(all@.take(m as int)),
        decreases all.len() - m,
    {
        let x = clone_issue(&all[m]);
        let ghost flags = later_flags(out@, x);
        let mut j: usize = 0;
        while j < out.len()
            invariant
                j <= out.len(),
                flags == later_flags(out@, x),
                forall|q: int| 0 <= q < j ==> !flags[q],
            ensures
                j < out.len() ==> flags[j as int],
            decreases out.len() - j,
        {
            if str_lt(out[j].timestamp.as_str(), x.timestamp.as_str()) {
                break;
            }
            j = j + 1;
        }
        proof {
            if j < out.len() {
                lemma_first_index(flags, j as int);
            } else {
                lemma_first_index_none(flags);
            }
            assert(all@.take(m + 1).drop_last() =~= all@.take(m as int));
            assert(all@.take(m + 1).last() == x);
        }
        out.insert(j, x);
        m = m + 1;
    }
    assert(all@.take(all.len() as int) =~= all@);
    out.truncate(12);
    out
}

/// A model stage's trace as the overview shows it: the event's fields, its
/// status (`unknown` where none was recorded) and latency (zero where none
/// was), and the texts of its discarded output, raw input, raw output and
/// normalised output payloads.
pub fn model_trace_entry(
    timestamp: String,
    turn_id: String,
    stage_name: String,
    prompt_mode: Option<String>,
    lane: Option<String>,
    provider: Option<String>,
    model: Option<String>,
    status: Option<String>,
    latency_ms: Option<i64>,
    displayed_text: Option<String>,
    attachments: Option<&Vec<(String, String)>>,
) -> (r: ModelTraceEntry)
    ensures
        r.timestamp == timestamp,
        r.turn_id == turn_id,
        r.stage_name == stage_name,
        r.prompt_mode == prompt_mode,
        r.lane == lane,
        r.provider == provider,
        r.model == model,
        r.status@ == (match status {
            Some(s) => s@,
            None => "unknown"@,
        }),
        r.latency_ms == latency_ms.unwrap_or(0),
        r.displayed_text == displayed_text,
        ({
            let slots = match attachments {
                Some(v) => Some(pairs_view(v@)),
                None => None,
            };
            let text_of = |slot: Seq<char>| match slots {
                Some(p) => first_slot_text(p, slot),
                None => None,
            };
            &&& opt_text_view(r.discarded_text) == text_of("discarded_output"@)
            &&& opt_text_view(r.raw_input) == text_of("raw_input"@)
            &&& opt_text_view(r.raw_output) == text_of("raw_output"@)
            &&& opt_text_view(r.normalized_output) == text_of("normalized_output"@)
        }),
{
    let discarded_text = payload_slot_text(attachments, "discarded_output");
    let raw_input = payload_slot_text(attachments, "raw_input");
    let raw_output = payload_slot_text(attachments, "raw_output");
    let normalized_output = payload_slot_text(attachments, "normalized_output");
    ModelTraceEntry {
        timestamp,
        turn_id,
        stage_name,
        prompt_mode,
        lane,
        provider,
        model,
        status: match status {
            Some(s) => s,
            None => "unknown".to_owned(),
        },
        latency_ms: match latency_ms {
            Some(l) => l,
            None => 0,
        },
        displayed_text,
        discarded_text,
        raw_input,
        raw_output,
        normalized_output,
    }
}

pub open spec fn opt_text_view(o: Option<String>) -> Option<Seq<char>> {
    match o {
        Some(s) => Some(s@),
        None => None,
    }
}

} // verus!
