//! Records of model calls, tool calls, recall passes and turn traces, and the
//! statistics shown on the overview screen.
use vstd::prelude::*;

use crate::conversation::ContextLevel;

verus! {

#[derive(Debug, Clone)]
pub struct ModelLogEntry {
    pub created_at: String,
    pub model_name: String,
    pub prompt: String,
    pub raw_output: String,
    pub input_tokens: Option<i64>,
    pub output_tokens: Option<i64>,
    pub latency_ms: i64,
    pub http_status: Option<i64>,
    pub error_text: Option<String>,
}

#[derive(Debug, Clone)]
pub struct ToolLogEntry {
    pub created_at: String,
    pub tool_name: String,
    pub action: String,
    pub arguments_json: String,
    pub result_json: String,
    pub success: bool,
    pub latency_ms: i64,
}

#[derive(Debug, Clone)]
pub struct RetrievalLogEntry {
    pub created_at: String,
    pub level: ContextLevel,
    pub recent_count: usize,
    pub semantic_count: usize,
    pub query_text: String,
    pub intent: String,
    pub latency_ms: i64,
    pub selected_message_ids_json: String,
    pub selected_memory_ids_json: String,
    pub source_breakdown_json: String,
}

#[derive(Debug, Clone)]
pub struct ModelStats {
    pub model_name: String,
    pub total_requests: i64,
    pub total_input_tokens: i64,
    pub total_output_tokens: i64,
    pub average_latency_ms: i64,
    pub latest_latency_ms: i64,
}

#[derive(Debug, Clone)]
pub struct UsageStats {
    pub calls: i64,
    pub tokens_in: Option<i64>,
    pub tokens_out: Option<i64>,
    pub latency_avg_ms: Option<i64>,
    pub latency_latest_ms: Option<i64>,
    pub tokens_per_second: Option<i64>,
}

#[derive(Debug, Clone)]
pub struct MemoryStats {
    pub message_count: i64,
    pub stored_memories: i64,
    pub vector_count: i64,
    pub retrieval_count: i64,
    pub active_durable_memories: i64,
    pub superseded_durable_memories: i64,
    pub all_durable_memories: i64,
    pub working_snapshot_count: i64,
}

#[derive(Debug, Clone)]
pub struct SystemStats {
    pub total_interactions: i64,
    pub tool_calls: i64,
    pub error_count: i64,
}

#[derive(Debug, Clone)]
pub struct LogViewerEntry {
    pub timestamp: String,
    pub prompt: String,
    pub raw_output: String,
    pub latency_ms: i64,
    pub status: Option<i64>,
}

#[derive(Debug, Clone)]
pub struct NanoRuntimeStatus {
    pub enabled: bool,
    pub availability: String,
    pub detail: String,
    pub provider: String,
    pub model: String,
    pub active: bool,
}

#[derive(Debug, Clone)]
pub struct RuntimeProfileSummary {
    pub id: String,
    pub label: String,
    pub provider: String,
    pub model: String,
    pub enabled: bool,
    pub available: bool,
    pub selected: bool,
}

#[derive(Debug, Clone)]
pub struct RuntimeOverview {
    pub nano: NanoRuntimeStatus,
    pub selected_cloud_profile_id: Option<String>,
    pub selected_cloud_profile_label: Option<String>,
    pub cloud_profiles: Vec<RuntimeProfileSummary>,
}

/// Who may see a traced payload.
#[derive(Debug, Clone, Copy, PartialEq, Eq, Structural)]
pub enum TraceVisibilityClass {
    Public,
    DebugLocal,
    SensitiveLocal,
    SecretRefOnly,
}

impl TraceVisibilityClass {
    pub open spec fn spec_name(self) -> Seq<char> {
        match self {
            TraceVisibilityClass::Public => "public"@,
            TraceVisibilityClass::DebugLocal => "debug_local"@,
            TraceVisibilityClass::SensitiveLocal => "sensitive_local"@,
            TraceVisibilityClass::SecretRefOnly => "secret_ref_only"@,
        }
    }

    pub fn as_str(self) -> (r: &'static str)
        ensures
            r@ == self.spec_name(),
    {
        match self {
            TraceVisibilityClass::Public => "public",
            TraceVisibilityClass::DebugLocal => "debug_local",
            TraceVisibilityClass::SensitiveLocal => "sensitive_local",
            TraceVisibilityClass::SecretRefOnly => "secret_ref_only",
        }
    }
}

#[derive(Debug, Clone)]
pub struct TracePayloadAttachment {
    pub slot: String,
    pub visibility_class: TraceVisibilityClass,
    pub content_format: String,
    pub content_text: String,
    /// The length of `content_text` in UTF-8 bytes.
    pub size_bytes: usize,
}

/// One event of a turn's trace; the references it selected are JSON text.
#[derive(Debug, Clone)]
pub struct TraceEventRecord {
    pub turn_id: String,
    pub stage_seq: i64,
    pub timestamp: String,
    pub category: String,
    pub name: String,
    pub plan_kind: Option<String>,
    pub fallback_plan_kind: Option<String>,
    pub reason_codes: Vec<String>,
    pub context_policy: Option<String>,
    pub prompt_mode: Option<String>,
    pub lane: Option<String>,
    pub provider: Option<String>,
    pub model: Option<String>,
    pub status: Option<String>,
    pub latency_ms: Option<i64>,
    pub http_status: Option<i64>,
    pub error_text: Option<String>,
    pub displayed_text: Option<String>,
    pub selected_refs_json: Option<String>,
    pub payloads: Vec<TracePayloadAttachment>,
}

#[derive(Debug, Clone)]
pub struct TurnTraceSummary {
    pub turn_id: String,
    pub created_at: String,
    pub user_input_summary: String,
    pub input_source: String,
    pub plan_kind: String,
    pub fallback_plan_kind: Option<String>,
    pub context_policy: Option<String>,
    pub model_stages: Vec<String>,
    pub memory_used: bool,
    pub tool_consulted: bool,
    pub tool_used: bool,
    pub nano_first_beat_used: bool,
    pub cloud_escalated: bool,
    pub cloud_used: bool,
    pub selected_cloud_profile: Option<String>,
    pub delivery_mode: String,
    pub final_route: String,
    pub error_summary: Option<String>,
    pub total_latency_ms: i64,
    pub final_visible_output: String,
    pub had_fallback: bool,
}

#[derive(Debug, Clone)]
pub struct ModelTraceEntry {
    pub timestamp: String,
    pub turn_id: String,
    pub stage_name: String,
    pub prompt_mode: Option<String>,
    pub lane: Option<String>,
    pub provider: Option<String>,
    pub model: Option<String>,
    pub status: String,
    pub latency_ms: i64,
    pub displayed_text: Option<String>,
    pub discarded_text: Option<String>,
    pub raw_input: Option<String>,
    pub raw_output: Option<String>,
    pub normalized_output: Option<String>,
}

#[derive(Debug, Clone)]
pub struct DecisionTraceEntry {
    pub timestamp: String,
    pub turn_id: String,
    pub name: String,
    pub plan_kind: Option<String>,
    pub fallback_plan_kind: Option<String>,
    pub reason_codes: Vec<String>,
    pub detail: Option<String>,
}

#[derive(Debug, Clone)]
pub struct DiagnosticIssue {
    pub timestamp: String,
    pub subsystem: String,
    pub level: String,
    pub summary: String,
    pub detail: Option<String>,
}

#[derive(Debug, Clone)]
pub struct DiagnosticsOverview {
    pub turn_summaries: Vec<TurnTraceSummary>,
    pub model_traces: Vec<ModelTraceEntry>,
    pub decision_events: Vec<DecisionTraceEntry>,
    pub issues: Vec<DiagnosticIssue>,
    pub recent_logs: Vec<LogViewerEntry>,
    pub recent_tool_logs: Vec<ToolLogEntry>,
}

} // verus!
