//! The decisions a turn's execution takes between its outside steps: how the
//! trace summary starts and records the plan and any fallback, which runner
//! plays the primary beat, what an acknowledgement beat's outcome means, when
//! a cloud failure falls back to the local model, and which text the user
//! sees when a tool ran.
use vstd::prelude::*;

use crate::conversation::{clone_opt_string, ContextLevel, InputSource};
use crate::memory::types::RecallBudget;
use crate::hgie::{
    trace_payload, beats_use_cloud, ExecutionRole, FallbackPlanKind, TurnExecutionPlan, TurnPlanKind, ToolPolicy,
    ContextPolicy,
};
use crate::logging::{
    ModelLogEntry, TraceEventRecord, TracePayloadAttachment, TraceVisibilityClass, TurnTraceSummary,
};
use vstd::utf8::encode_utf8;
use crate::text::{append_str, chars_of, compact, compact_text, is_blank_str, string_of, trim};
use crate::tools::ToolRequest;

verus! {

/// Why a turn's execution stopped.
#[derive(Debug, Clone, PartialEq, Eq)]
pub enum TurnFlowError {
    MissingPrimaryBeat,
    FastAckAsPrimary,
    AckForNonFastAck,
    ToolDirectWithoutExactRequest,
    FallbackWithoutLocalReply,
    /// The cloud call failed (its error text) and no local model can answer.
    CloudFailed(String),
    CloudOutputSuppressed,
}

impl TurnFlowError {
    pub open spec fn spec_message(self) -> Seq<char> {
        match self {
            TurnFlowError::MissingPrimaryBeat => "turn execution plan is missing a primary beat"@,
            TurnFlowError::FastAckAsPrimary => "fast ack beat cannot be the primary execution beat"@,
            TurnFlowError::AckForNonFastAck => "ack beat requested for non-fast-ack role"@,
            TurnFlowError::ToolDirectWithoutExactRequest => "tool_direct plan missing exact tool policy"@,
            TurnFlowError::FallbackWithoutLocalReply => "nano fallback requested without a local reply runtime"@,
            TurnFlowError::CloudFailed(e) => "cloud reasoning failed: "@ + e@,
            TurnFlowError::CloudOutputSuppressed => "cloud reasoning returned suppressed internal payload"@,
        }
    }

    pub fn message(&self) -> (r: String)
        ensures
            r@ == self.spec_message(),
    {
        match self {
            TurnFlowError::MissingPrimaryBeat => "turn execution plan is missing a primary beat".to_owned(),
            TurnFlowError::FastAckAsPrimary => "fast ack beat cannot be the primary execution beat".to_owned(),
            TurnFlowError::AckForNonFastAck => "ack beat requested for non-fast-ack role".to_owned(),
            TurnFlowError::ToolDirectWithoutExactRequest => "tool_direct plan missing exact tool policy".to_owned(),
            TurnFlowError::FallbackWithoutLocalReply => "nano fallback requested without a local reply runtime".to_owned(),
            TurnFlowError::CloudFailed(e) => {
                let mut v = chars_of("cloud reasoning failed: ");
                append_str(&mut v, e.as_str());
                string_of(&v)
            },
            TurnFlowError::CloudOutputSuppressed => "cloud reasoning returned suppressed internal payload".to_owned(),
        }
    }
}

// ---------------------------------------------------------------------------
// The trace summary
// ---------------------------------------------------------------------------

/// The summary of a turn just received: its compacted input and source,
/// nothing planned or used yet, delivery pending.
pub fn received_turn_summary(
    turn_id: &str,
    created_at: &str,
    text: &str,
    input_source: InputSource,
) -> (r: TurnTraceSummary)
    ensures
        r.turn_id@ == turn_id@,
        r.created_at@ == created_at@,
        r.user_input_summary@ == compact(text@, 96),
        r.input_source@ == input_source.spec_name(),
        r.plan_kind@ == "unplanned"@,
        r.fallback_plan_kind is None,
        r.context_policy is None,
        r.model_stages@.len() == 0,
        !r.memory_used,
        !r.tool_consulted,
        !r.tool_used,
        !r.nano_first_beat_used,
        !r.cloud_escalated,
        !r.cloud_used,
        r.selected_cloud_profile is None,
        r.delivery_mode@ == "PENDING"@,
        r.final_route@ == "pending"@,
        r.error_summary is None,
        r.total_latency_ms == 0,
        r.final_visible_output@.len() == 0,
        !r.had_fallback,
{
    TurnTraceSummary {
        turn_id: turn_id.to_owned(),
        created_at: created_at.to_owned(),
        user_input_summary: compact_text(text, 96),
        input_source: input_source.as_str().to_owned(),
        plan_kind: "unplanned".to_owned(),
        fallback_plan_kind: None,
        context_policy: None,
        model_stages: Vec::new(),
        memory_used: false,
        tool_consulted: false,
        tool_used: false,
        nano_first_beat_used: false,
        cloud_escalated: false,
        cloud_used: false,
        selected_cloud_profile: None,
        delivery_mode: "PENDING".to_owned(),
        final_route: "pending".to_owned(),
        error_summary: None,
        total_latency_ms: 0,
        final_visible_output: String::new(),
        had_fallback: false,
    }
}

/// The summary of an authorisation callback turn: a direct tool turn with no
/// context that consults and uses the tool, delivered as a tool callback.
pub fn callback_turn_summary(turn_id: &str, created_at: &str) -> (r: TurnTraceSummary)
    ensures
        r.turn_id@ == turn_id@,
        r.created_at@ == created_at@,
        r.user_input_summary@ == "Spotify auth callback"@,
        r.input_source@ == "text"@,
        r.plan_kind@ == "tool_direct"@,
        r.fallback_plan_kind is None,
        r.context_policy matches Some(p) && p@ == "none"@,
        r.model_stages@.len() == 0,
        !r.memory_used,
        r.tool_consulted,
        r.tool_used,
        !r.nano_first_beat_used,
        !r.cloud_escalated,
        !r.cloud_used,
        r.selected_cloud_profile is None,
        r.delivery_mode@ == "TOOL_CALLBACK"@,
        r.final_route@ == "tool"@,
        r.error_summary is None,
        r.total_latency_ms == 0,
        r.final_visible_output@.len() == 0,
        !r.had_fallback,
{
    TurnTraceSummary {
        turn_id: turn_id.to_owned(),
        created_at: created_at.to_owned(),
        user_input_summary: "Spotify auth callback".to_owned(),
        input_source: InputSource::Text.as_str().to_owned(),
        plan_kind: TurnPlanKind::ToolDirect.as_str().to_owned(),
        fallback_plan_kind: None,
        context_policy: Some(ContextPolicy::NoContext.as_str().to_owned()),
        model_stages: Vec::new(),
        memory_used: false,
        tool_consulted: true,
        tool_used: true,
        nano_first_beat_used: false,
        cloud_escalated: false,
        cloud_used: false,
        selected_cloud_profile: None,
        delivery_mode: "TOOL_CALLBACK".to_owned(),
        final_route: "tool".to_owned(),
        error_summary: None,
        total_latency_ms: 0,
        final_visible_output: String::new(),
        had_fallback: false,
    }
}

/// Records the selected plan: its kind and context policy, whether it
/// consults a tool, whether it escalates to the cloud, and the cloud profile
/// (`selected_cloud_profile`, what the runtime reports) only when it does.
pub fn record_plan_selection(
    summary: &mut TurnTraceSummary,
    plan: &TurnExecutionPlan,
    selected_cloud_profile: Option<String>,
)
    ensures
        final(summary).plan_kind@ == plan.plan_kind.spec_name(),
        final(summary).context_policy matches Some(p) && p@ == plan.context_policy.spec_name(),
        final(summary).tool_consulted == plan.tool_consulted,
        final(summary).cloud_escalated == beats_use_cloud(plan.beats@),
        final(summary).selected_cloud_profile == (if beats_use_cloud(plan.beats@) {
            selected_cloud_profile
        } else {
            None
        }),
        *final(summary) == (TurnTraceSummary {
            plan_kind: final(summary).plan_kind,
            context_policy: final(summary).context_policy,
            tool_consulted: final(summary).tool_consulted,
            cloud_escalated: final(summary).cloud_escalated,
            selected_cloud_profile: final(summary).selected_cloud_profile,
            ..*old(summary)
        }),
{
    let cloud = plan.uses_cloud();
    summary.plan_kind = plan.plan_kind.as_str().to_owned();
    summary.context_policy = Some(plan.context_policy.as_str().to_owned());
    summary.tool_consulted = plan.tool_consulted;
    summary.cloud_escalated = cloud;
    summary.selected_cloud_profile = if cloud {
        selected_cloud_profile
    } else {
        None
    };
}

/// Marks the turn as fallen back, of the given kind.
pub fn enter_fallback(summary: &mut TurnTraceSummary, fallback_kind: FallbackPlanKind)
    ensures
        final(summary).had_fallback,
        final(summary).fallback_plan_kind matches Some(k) && k@ == fallback_kind.spec_name(),
        *final(summary) == (TurnTraceSummary {
            had_fallback: true,
            fallback_plan_kind: final(summary).fallback_plan_kind,
            ..*old(summary)
        }),
{
    summary.had_fallback = true;
    summary.fallback_plan_kind = Some(fallback_kind.as_str().to_owned());
}

/// Marks the turn as fallen back to a visible error, with the error's text.
pub fn record_visible_fallback(summary: &mut TurnTraceSummary, error_text: String)
    ensures
        final(summary).had_fallback,
        final(summary).fallback_plan_kind matches Some(k) && k@ == "fallback_error_visible"@,
        final(summary).error_summary == Some(error_text),
        *final(summary) == (TurnTraceSummary {
            had_fallback: true,
            fallback_plan_kind: final(summary).fallback_plan_kind,
            error_summary: Some(error_text),
            ..*old(summary)
        }),
{
    enter_fallback(summary, FallbackPlanKind::FallbackErrorVisible);
    summary.error_summary = Some(error_text);
}

/// What the user sees when the turn fails: the acknowledgement already shown,
/// else a fixed notice.
pub open spec fn spec_fallback_visible_text(first_beat_text: Seq<char>) -> Seq<char> {
    if first_beat_text.len() > 0 {
        first_beat_text
    } else {
        "Something needs attention before I can finish that."@
    }
}

pub fn fallback_visible_text(first_beat_text: &str) -> (r: String)
    ensures
        r@ == spec_fallback_visible_text(first_beat_text@),
{
    if chars_of(first_beat_text).len() > 0 {
        first_beat_text.to_owned()
    } else {
        "Something needs attention before I can finish that.".to_owned()
    }
}

// ---------------------------------------------------------------------------
// Beats
// ---------------------------------------------------------------------------

/// Who plays a primary beat.
#[derive(Debug, Clone, Copy, PartialEq, Eq, Structural)]
pub enum PrimaryRunner {
    /// The local model replies.
    Nano,
    /// The cloud model replies, reasons or decides on a tool.
    Cloud,
    /// The exact tool request runs.
    ToolDirect,
}

pub open spec fn spec_primary_runner(role: ExecutionRole) -> Result<PrimaryRunner, TurnFlowError> {
    match role {
        ExecutionRole::LocalReply | ExecutionRole::MemoryReply => Ok(PrimaryRunner::Nano),
        ExecutionRole::CloudReply | ExecutionRole::DeepReasoning
        | ExecutionRole::StructuredToolDecision => Ok(PrimaryRunner::Cloud),
        ExecutionRole::DeterministicTool => Ok(PrimaryRunner::ToolDirect),
        ExecutionRole::FastAck => Err(TurnFlowError::FastAckAsPrimary),
    }
}

/// The runner of the plan's primary beat; a plan without one, or whose
/// primary beat is a fast acknowledgement, cannot run.
pub fn primary_runner(plan: &TurnExecutionPlan) -> (r: Result<PrimaryRunner, TurnFlowError>)
    ensures
        r == (match crate::hgie::first_beat_of(plan.beats@, crate::hgie::BeatKind::Primary) {
            Some(b) => spec_primary_runner(b.role),
            None => Err(TurnFlowError::MissingPrimaryBeat),
        }),
{
    match plan.primary_beat() {
        Some(b) => match b.role {
            ExecutionRole::LocalReply | ExecutionRole::MemoryReply => Ok(PrimaryRunner::Nano),
            ExecutionRole::CloudReply | ExecutionRole::DeepReasoning
            | ExecutionRole::StructuredToolDecision => Ok(PrimaryRunner::Cloud),
            ExecutionRole::DeterministicTool => Ok(PrimaryRunner::ToolDirect),
            ExecutionRole::FastAck => Err(TurnFlowError::FastAckAsPrimary),
        },
        None => Err(TurnFlowError::MissingPrimaryBeat),
    }
}

/// An acknowledgement beat may only be played by the fast-ack role.
pub fn check_ack_role(role: ExecutionRole) -> (r: Result<(), TurnFlowError>)
    ensures
        r == (if role == ExecutionRole::FastAck {
            Ok(())
        } else {
            Err(TurnFlowError::AckForNonFastAck)
        }),
{
    if role == ExecutionRole::FastAck {
        Ok(())
    } else {
        Err(TurnFlowError::AckForNonFastAck)
    }
}

/// What an acknowledgement beat's outcome means for the turn.
#[derive(Debug, Clone, PartialEq, Eq)]
pub enum AckOutcome {
    /// The acknowledgement is shown and the assistant's message starts with it.
    Started(String),
    /// The beat gave nothing to show.
    Silent,
    /// The optional beat failed (its error text) and is skipped.
    Skipped(String),
    /// The required beat failed (its error text); the turn fails.
    Failed(String),
}

/// `outcome` is what running the beat gave: its normalised text, or its
/// error's text.
pub fn ack_outcome(outcome: Result<String, String>, optional: bool) -> (r: AckOutcome)
    ensures
        r == (match outcome {
            Ok(text) => if trim(text@).len() > 0 {
                AckOutcome::Started(text)
            } else {
                AckOutcome::Silent
            },
            Err(e) => if optional {
                AckOutcome::Skipped(e)
            } else {
                AckOutcome::Failed(e)
            },
        }),
{
    match outcome {
        Ok(text) => if !is_blank_str(text.as_str()) {
            AckOutcome::Started(text)
        } else {
            AckOutcome::Silent
        },
        Err(e) => if optional {
            AckOutcome::Skipped(e)
        } else {
            AckOutcome::Failed(e)
        },
    }
}

// ---------------------------------------------------------------------------
// Cloud and tool beats
// ---------------------------------------------------------------------------

/// What went wrong with a cloud beat.
#[derive(Debug, Clone, PartialEq, Eq)]
pub enum CloudProblem {
    /// The call failed, with its error text.
    RuntimeError(String),
    /// The output was an internal payload and was suppressed.
    OutputSuppressed,
}

pub open spec fn spec_cloud_fallback(problem: CloudProblem, local_reply: bool) -> Result<Seq<char>, TurnFlowError> {
    if !local_reply {
        match problem {
            CloudProblem::RuntimeError(e) => Err(TurnFlowError::CloudFailed(e)),
            CloudProblem::OutputSuppressed => Err(TurnFlowError::CloudOutputSuppressed),
        }
    } else {
        match problem {
            CloudProblem::RuntimeError(_) => Ok("cloud_runtime_error"@),
            CloudProblem::OutputSuppressed => Ok("cloud_output_suppressed"@),
        }
    }
}

/// Whether a cloud problem falls back to the local model (the fallback's
/// reason code) or fails the turn: it falls back exactly when a local model
/// can reply.
pub fn cloud_fallback(problem: CloudProblem, local_reply: bool) -> (r: Result<String, TurnFlowError>)
    ensures
        match (r, spec_cloud_fallback(problem, local_reply)) {
            (Ok(a), Ok(b)) => a@ == b,
            (Err(a), Err(b)) => a == b,
            _ => false,
        },
{
    if !local_reply {
        match problem {
            CloudProblem::RuntimeError(e) => Err(TurnFlowError::CloudFailed(e)),
            CloudProblem::OutputSuppressed => Err(TurnFlowError::CloudOutputSuppressed),
        }
    } else {
        match problem {
            CloudProblem::RuntimeError(_) => Ok("cloud_runtime_error".to_owned()),
            CloudProblem::OutputSuppressed => Ok("cloud_output_suppressed".to_owned()),
        }
    }
}

/// The local fallback needs a local model.
pub fn check_fallback_available(local_reply: bool) -> (r: Result<(), TurnFlowError>)
    ensures
        r == (if local_reply {
            Ok(())
        } else {
            Err(TurnFlowError::FallbackWithoutLocalReply)
        }),
{
    if local_reply {
        Ok(())
    } else {
        Err(TurnFlowError::FallbackWithoutLocalReply)
    }
}

/// A cloud beat runs the tool it asked for only in a cloud-tool plan.
pub fn runs_cloud_tool(plan_kind: TurnPlanKind, has_tool_request: bool) -> (r: bool)
    ensures
        r == (plan_kind == TurnPlanKind::CloudTool && has_tool_request),
{
    plan_kind == TurnPlanKind::CloudTool && has_tool_request
}

/// The cloud beat's reply: the tool's summary where the model said nothing,
/// a tool ran and no acknowledgement was shown; else the model's reply.
pub open spec fn spec_cloud_assistant_reply(
    parsed_reply: Seq<char>,
    tool_summary: Option<Seq<char>>,
    first_beat_text: Seq<char>,
) -> Seq<char> {
    match tool_summary {
        Some(s) => if trim(parsed_reply).len() == 0 && trim(first_beat_text).len() == 0 {
            s
        } else {
            parsed_reply
        },
        None => parsed_reply,
    }
}

pub fn cloud_assistant_reply(parsed_reply: &str, tool_summary: Option<&str>, first_beat_text: &str) -> (r:
    String)
    ensures
        r@ == spec_cloud_assistant_reply(
            parsed_reply@,
            crate::prompt_translator::opt_view(tool_summary),
            first_beat_text@,
        ),
{
    match tool_summary {
        Some(s) => if is_blank_str(parsed_reply) && is_blank_str(first_beat_text) {
            s.to_owned()
        } else {
            parsed_reply.to_owned()
        },
        None => parsed_reply.to_owned(),
    }
}

/// The exact tool request a direct tool plan runs.
pub fn tool_direct_request(plan: &TurnExecutionPlan) -> (r: Result<&ToolRequest, TurnFlowError>)
    ensures
        match plan.tool_policy {
            ToolPolicy::Exact(req) => r == Ok::<&ToolRequest, TurnFlowError>(&req),
            _ => r == Err::<&ToolRequest, TurnFlowError>(TurnFlowError::ToolDirectWithoutExactRequest),
        },
{
    match &plan.tool_policy {
        ToolPolicy::Exact(request) => Ok(request),
        _ => Err(TurnFlowError::ToolDirectWithoutExactRequest),
    }
}

/// What a direct tool turn shows: the tool's summary, unless an
/// acknowledgement was already shown.
pub open spec fn spec_tool_direct_reply(first_beat_text: Seq<char>, tool_summary: Seq<char>) -> Seq<char> {
    if trim(first_beat_text).len() == 0 {
        tool_summary
    } else {
        first_beat_text
    }
}

pub fn tool_direct_reply(first_beat_text: &str, tool_summary: &str) -> (r: String)
    ensures
        r@ == spec_tool_direct_reply(first_beat_text@, tool_summary@),
{
    if is_blank_str(first_beat_text) {
        tool_summary.to_owned()
    } else {
        first_beat_text.to_owned()
    }
}

// ---------------------------------------------------------------------------
// Trace events
// ---------------------------------------------------------------------------

/// A turn's trace as it is being written: the last event's number and the
/// summary so far.
#[derive(Debug, Clone)]
pub struct TurnTraceState {
    pub stage_seq: i64,
    pub summary: TurnTraceSummary,
}

/// The next event of the turn's trace, of `category` and `name`: it takes the
/// next number, the turn, the plan, fallback and context policy from the
/// summary, and the given reasons, references and payloads; a non-empty list
/// of model stages replaces the summary's.
pub fn next_trace_event(
    state: &mut TurnTraceState,
    timestamp: &str,
    category: &str,
    name: &str,
    reason_codes: Vec<String>,
    model_stage_names: Vec<String>,
    selected_refs_json: Option<String>,
    payloads: Vec<TracePayloadAttachment>,
) -> (r: TraceEventRecord)
    requires
        old(state).stage_seq < i64::MAX,
    ensures
        final(state).stage_seq == old(state).stage_seq + 1,
        final(state).summary.model_stages@ == (if model_stage_names@.len() > 0 {
            model_stage_names@
        } else {
            old(state).summary.model_stages@
        }),
        final(state).summary == (TurnTraceSummary {
            model_stages: final(state).summary.model_stages,
            ..old(state).summary
        }),
        r.turn_id == old(state).summary.turn_id,
        r.stage_seq == final(state).stage_seq,
        r.timestamp@ == timestamp@,
        r.category@ == category@,
        r.name@ == name@,
        r.plan_kind == Some(old(state).summary.plan_kind),
        r.fallback_plan_kind == old(state).summary.fallback_plan_kind,
        r.reason_codes == reason_codes,
        r.context_policy == old(state).summary.context_policy,
        r.prompt_mode is None,
        r.lane is None,
        r.provider is None,
        r.model is None,
        r.status is None,
        r.latency_ms is None,
        r.http_status is None,
        r.error_text is None,
        r.displayed_text is None,
        r.selected_refs_json == selected_refs_json,
        r.payloads == payloads,
{
    if model_stage_names.len() > 0 {
        state.summary.model_stages = model_stage_names;
    }
    state.stage_seq = state.stage_seq + 1;
    TraceEventRecord {
        turn_id: state.summary.turn_id.clone(),
        stage_seq: state.stage_seq,
        timestamp: timestamp.to_owned(),
        category: category.to_owned(),
        name: name.to_owned(),
        plan_kind: Some(state.summary.plan_kind.clone()),
        fallback_plan_kind: clone_opt_string(&state.summary.fallback_plan_kind),
        reason_codes,
        context_policy: clone_opt_string(&state.summary.context_policy),
        prompt_mode: None,
        lane: None,
        provider: None,
        model: None,
        status: None,
        latency_ms: None,
        http_status: None,
        error_text: None,
        displayed_text: None,
        selected_refs_json,
        payloads,
    }
}

/// Whether `p` is the payload of `slot`, of the class and format given,
/// carrying `text`.
pub open spec fn payload_is(
    p: TracePayloadAttachment,
    slot: Seq<char>,
    class: TraceVisibilityClass,
    format: Seq<char>,
    text: Seq<char>,
) -> bool {
    &&& p.slot@ == slot
    &&& p.visibility_class == class
    &&& p.content_format@ == format
    &&& p.content_text@ == text
    &&& p.size_bytes == encode_utf8(text).len()
}

/// The next event of the turn's trace for a model stage, of category
/// `model`: named `event_name`, in the prompt mode and lane given, with the
/// model, latency, HTTP status and error of the first log entry (its status
/// `error` where that entry carries an error, else `success`), the displayed
/// text, and payloads for the raw input, raw output, normalised output and,
/// where there is one, the discarded output.
pub fn next_model_trace_event(
    state: &mut TurnTraceState,
    timestamp: &str,
    event_name: &str,
    prompt_mode: &str,
    lane: &str,
    logs: &[ModelLogEntry],
    raw_input: &str,
    raw_output: &str,
    normalized_output: &str,
    discarded_output: Option<&str>,
) -> (r: TraceEventRecord)
    requires
        old(state).stage_seq < i64::MAX,
    ensures
        final(state).stage_seq == old(state).stage_seq + 1,
        final(state).summary == old(state).summary,
        r.turn_id == old(state).summary.turn_id,
        r.stage_seq == final(state).stage_seq,
        r.timestamp@ == timestamp@,
        r.category@ == "model"@,
        r.name@ == event_name@,
        r.plan_kind == Some(old(state).summary.plan_kind),
        r.fallback_plan_kind == old(state).summary.fallback_plan_kind,
        r.reason_codes@.len() == 0,
        r.context_policy == old(state).summary.context_policy,
        r.prompt_mode matches Some(m) && m@ == prompt_mode@,
        r.lane matches Some(l) && l@ == lane@,
        r.provider is None,
        r.model == (if logs@.len() > 0 {
            Some(logs@[0].model_name)
        } else {
            None
        }),
        r.status matches Some(s) && s@ == (if logs@.len() > 0 && logs@[0].error_text is Some {
            "error"@
        } else {
            "success"@
        }),
        r.latency_ms == (if logs@.len() > 0 {
            Some(logs@[0].latency_ms)
        } else {
            None
        }),
        r.http_status == (if logs@.len() > 0 {
            logs@[0].http_status
        } else {
            None
        }),
        r.error_text == (if logs@.len() > 0 {
            logs@[0].error_text
        } else {
            None
        }),
        r.displayed_text matches Some(d) && d@ == normalized_output@,
        r.selected_refs_json is None,
        r.payloads@.len() == (if discarded_output is Some {
            4int
        } else {
            3int
        }),
        payload_is(r.payloads@[0], "raw_input"@, TraceVisibilityClass::SensitiveLocal, "text"@, raw_input@),
        payload_is(r.payloads@[1], "raw_output"@, TraceVisibilityClass::SensitiveLocal, "text"@, raw_output@),
        payload_is(r.payloads@[2], "normalized_output"@, TraceVisibilityClass::DebugLocal, "text"@, normalized_output@),
        discarded_output matches Some(d) ==> payload_is(
            r.payloads@[3],
            "discarded_output"@,
            TraceVisibilityClass::DebugLocal,
            "text"@,
            d@,
        ),
{
    state.stage_seq = state.stage_seq + 1;
    let (model, status, latency_ms, http_status, error_text) = if logs.len() > 0 {
        let entry = &logs[0];
        let status = if entry.error_text.is_some() {
            "error".to_owned()
        } else {
            "success".to_owned()
        };
        (
            Some(entry.model_name.clone()),
            status,
            Some(entry.latency_ms),
            entry.http_status,
            clone_opt_string(&entry.error_text),
        )
    } else {
        (None, "success".to_owned(), None, None, None)
    };
    let mut payloads: Vec<TracePayloadAttachment> = Vec::new();
    payloads.push(trace_payload("raw_input", TraceVisibilityClass::SensitiveLocal, "text", raw_input));
    payloads.push(trace_payload("raw_output", TraceVisibilityClass::SensitiveLocal, "text", raw_output));
    payloads.push(
        trace_payload("normalized_output", TraceVisibilityClass::DebugLocal, "text", normalized_output),
    );
    if let Some(d) = discarded_output {
        payloads.push(trace_payload("discarded_output", TraceVisibilityClass::DebugLocal, "text", d));
    }
    TraceEventRecord {
        turn_id: state.summary.turn_id.clone(),
        stage_seq: state.stage_seq,
        timestamp: timestamp.to_owned(),
        category: "model".to_owned(),
        name: event_name.to_owned(),
        plan_kind: Some(state.summary.plan_kind.clone()),
        fallback_plan_kind: clone_opt_string(&state.summary.fallback_plan_kind),
        reason_codes: Vec::new(),
        context_policy: clone_opt_string(&state.summary.context_policy),
        prompt_mode: Some(prompt_mode.to_owned()),
        lane: Some(lane.to_owned()),
        provider: None,
        model,
        status: Some(status),
        latency_ms,
        http_status,
        error_text,
        displayed_text: Some(normalized_output.to_owned()),
        selected_refs_json: None,
        payloads,
    }
}

// ---------------------------------------------------------------------------
// Recall budgets and log entries
// ---------------------------------------------------------------------------

/// What a user turn asks of recall: twice the context level's turn limit in
/// recent messages, its semantic limit in durable memories, no cold candidates.
pub fn turn_recall_budget(context_level: ContextLevel) -> (r: RecallBudget)
    ensures
        r.max_recent_messages == Some((context_level.spec_recent_turn_limit() * 2) as usize),
        r.max_durable_memories == Some(context_level.spec_semantic_limit()),
        !r.include_cold_candidates,
{
    RecallBudget {
        max_recent_messages: Some(context_level.recent_turn_limit() * 2),
        max_durable_memories: Some(context_level.semantic_limit()),
        include_cold_candidates: false,
    }
}

/// The log entry of a prompt that could not be built or run: from the prompt
/// pipeline, its stage and input as the prompt, the error's text.
pub fn prompt_issue_log_entry(created_at: String, stage: &str, prompt_input: &str, error_text: String) -> (r:
    ModelLogEntry)
    ensures
        r.created_at == created_at,
        r.model_name@ == "Prompt pipeline"@,
        r.prompt@ == "stage="@ + stage@ + "\ninput="@ + prompt_input@,
        r.raw_output@.len() == 0,
        r.input_tokens is None,
        r.output_tokens is None,
        r.latency_ms == 0,
        r.http_status is None,
        r.error_text == Some(error_text),
{
    let mut prompt = chars_of("stage=");
    append_str(&mut prompt, stage);
    append_str(&mut prompt, "\ninput=");
    append_str(&mut prompt, prompt_input);
    ModelLogEntry {
        created_at,
        model_name: "Prompt pipeline".to_owned(),
        prompt: string_of(&prompt),
        raw_output: String::new(),
        input_tokens: None,
        output_tokens: None,
        latency_ms: 0,
        http_status: None,
        error_text: Some(error_text),
    }
}

/// The log entry of a cloud call that failed: from cloud reasoning, the
/// request's messages (as JSON text) as the prompt, the error's text.
pub fn cloud_failure_log_entry(created_at: String, prompt_json: String, error_text: String) -> (r:
    ModelLogEntry)
    ensures
        r.created_at == created_at,
        r.model_name@ == "Cloud reasoning"@,
        r.prompt == prompt_json,
        r.raw_output@.len() == 0,
        r.input_tokens is None,
        r.output_tokens is None,
        r.latency_ms == 0,
        r.http_status is None,
        r.error_text == Some(error_text),
{
    ModelLogEntry {
        created_at,
        model_name: "Cloud reasoning".to_owned(),
        prompt: prompt_json,
        raw_output: String::new(),
        input_tokens: None,
        output_tokens: None,
        latency_ms: 0,
        http_status: None,
        error_text: Some(error_text),
    }
}

} // verus!
