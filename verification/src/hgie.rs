//! Turn planning: how a user turn is routed between the local model, the cloud
//! model and the deterministic tools, which beats it shows, and which context
//! each beat draws on.
pub mod flow;
pub mod turn_step;

use vstd::prelude::*;

use crate::conversation::{copy_messages, ChatMessage};
use crate::logging::{
    RuntimeOverview, RuntimeProfileSummary, TracePayloadAttachment, TraceVisibilityClass,
    TurnTraceSummary,
};
use crate::memory::vector::{punctuation_to_spaces, punctuation_to_spaces_chars};
use crate::memory::types::ContinuityMode;
use crate::prompt_translator::{
    BehaviorPolicy, ParsedTurnOutputKind, PromptMemory, PromptOutputContract,
};
use crate::text::{
    append_chars, append_str, chars_eq_str, chars_of, collapse_ws, collapse_ws_chars, compact,
    compact_text, contains, contains_str, copy_chars, find_chars, find_first, first_occurrence,
    join, join_chars, lowercase_chars, occurs_at, seqs_of, slice_chars, split_words,
    spec_to_lowercase, starts_with, starts_with_str, string_of, strs_view, trim, trim_chars,
    trim_set, trim_set_chars, words, CharSet, lemma_find_first_is,
};
use vstd::string::StringSliceAdditionalSpecFns;
use vstd::utf8::encode_utf8;
use crate::tools::{
    detect_tool_intent, spec_detect_tool_intent, ToolIntentMatch, ToolIntentView, ToolName,
    ToolRequest, ToolRequestView,
};

verus! {

// ---------------------------------------------------------------------------
// Vocabulary
// ---------------------------------------------------------------------------

/// The route a turn takes.
#[derive(Debug, Clone, Copy, PartialEq, Eq, Structural)]
pub enum TurnPlanKind {
    DirectNano,
    RecallNano,
    CloudEscalated,
    ToolDirect,
    CloudTool,
}

impl TurnPlanKind {
    pub open spec fn spec_name(self) -> Seq<char> {
        match self {
            TurnPlanKind::DirectNano => "direct_nano"@,
            TurnPlanKind::RecallNano => "recall_nano"@,
            TurnPlanKind::CloudEscalated => "cloud_escalated"@,
            TurnPlanKind::ToolDirect => "tool_direct"@,
            TurnPlanKind::CloudTool => "cloud_tool"@,
        }
    }

    pub fn as_str(self) -> (r: &'static str)
        ensures
            r@ == self.spec_name(),
    {
        match self {
            TurnPlanKind::DirectNano => "direct_nano",
            TurnPlanKind::RecallNano => "recall_nano",
            TurnPlanKind::CloudEscalated => "cloud_escalated",
            TurnPlanKind::ToolDirect => "tool_direct",
            TurnPlanKind::CloudTool => "cloud_tool",
        }
    }
}

/// The route taken after a failure.
#[derive(Debug, Clone, Copy, PartialEq, Eq, Structural)]
pub enum FallbackPlanKind {
    FallbackNano,
    FallbackErrorVisible,
}

impl FallbackPlanKind {
    pub open spec fn spec_name(self) -> Seq<char> {
        match self {
            FallbackPlanKind::FallbackNano => "fallback_nano"@,
            FallbackPlanKind::FallbackErrorVisible => "fallback_error_visible"@,
        }
    }

    pub fn as_str(self) -> (r: &'static str)
        ensures
            r@ == self.spec_name(),
    {
        match self {
            FallbackPlanKind::FallbackNano => "fallback_nano",
            FallbackPlanKind::FallbackErrorVisible => "fallback_error_visible",
        }
    }
}

/// Which remembered context a turn or beat draws on.
#[derive(Debug, Clone, Copy, PartialEq, Eq, Structural)]
pub enum ContextPolicy {
    NoContext,
    TranscriptOnly,
    DurableOnly,
    TranscriptPlusDurable,
}

impl ContextPolicy {
    pub open spec fn spec_name(self) -> Seq<char> {
        match self {
            ContextPolicy::NoContext => "none"@,
            ContextPolicy::TranscriptOnly => "transcript_only"@,
            ContextPolicy::DurableOnly => "durable_only"@,
            ContextPolicy::TranscriptPlusDurable => "transcript_plus_durable"@,
        }
    }

    pub fn as_str(self) -> (r: &'static str)
        ensures
            r@ == self.spec_name(),
    {
        match self {
            ContextPolicy::NoContext => "none",
            ContextPolicy::TranscriptOnly => "transcript_only",
            ContextPolicy::DurableOnly => "durable_only",
            ContextPolicy::TranscriptPlusDurable => "transcript_plus_durable",
        }
    }

    /// Whether the policy draws on the transcript.
    pub open spec fn spec_includes_transcript(self) -> bool {
        self == ContextPolicy::TranscriptOnly || self == ContextPolicy::TranscriptPlusDurable
    }

    /// Whether the policy draws on durable memory.
    pub open spec fn spec_includes_durable(self) -> bool {
        self == ContextPolicy::DurableOnly || self == ContextPolicy::TranscriptPlusDurable
    }
}

/// A beat is either the quick acknowledgement or the primary answer.
#[derive(Debug, Clone, Copy, PartialEq, Eq, Structural)]
pub enum BeatKind {
    Acknowledge,
    Primary,
}

impl BeatKind {
    pub open spec fn spec_name(self) -> Seq<char> {
        match self {
            BeatKind::Acknowledge => "acknowledge"@,
            BeatKind::Primary => "primary"@,
        }
    }

    pub fn as_str(self) -> (r: &'static str)
        ensures
            r@ == self.spec_name(),
    {
        match self {
            BeatKind::Acknowledge => "acknowledge",
            BeatKind::Primary => "primary",
        }
    }
}

/// Who produces a beat.
#[derive(Debug, Clone, Copy, PartialEq, Eq, Structural)]
pub enum ExecutionRole {
    FastAck,
    LocalReply,
    MemoryReply,
    CloudReply,
    DeepReasoning,
    StructuredToolDecision,
    DeterministicTool,
}

impl ExecutionRole {
    pub open spec fn spec_name(self) -> Seq<char> {
        match self {
            ExecutionRole::FastAck => "fast_ack"@,
            ExecutionRole::LocalReply => "local_reply"@,
            ExecutionRole::MemoryReply => "memory_reply"@,
            ExecutionRole::CloudReply => "cloud_reply"@,
            ExecutionRole::DeepReasoning => "deep_reasoning"@,
            ExecutionRole::StructuredToolDecision => "structured_tool_decision"@,
            ExecutionRole::DeterministicTool => "deterministic_tool"@,
        }
    }

    pub fn as_str(self) -> (r: &'static str)
        ensures
            r@ == self.spec_name(),
    {
        match self {
            ExecutionRole::FastAck => "fast_ack",
            ExecutionRole::LocalReply => "local_reply",
            ExecutionRole::MemoryReply => "memory_reply",
            ExecutionRole::CloudReply => "cloud_reply",
            ExecutionRole::DeepReasoning => "deep_reasoning",
            ExecutionRole::StructuredToolDecision => "structured_tool_decision",
            ExecutionRole::DeterministicTool => "deterministic_tool",
        }
    }

    /// The roles that the cloud model plays.
    pub open spec fn spec_is_cloud(self) -> bool {
        self == ExecutionRole::CloudReply || self == ExecutionRole::DeepReasoning || self
            == ExecutionRole::StructuredToolDecision
    }
}

/// How the beats reach the user.
#[derive(Debug, Clone, Copy, PartialEq, Eq, Structural)]
pub enum DeliveryPolicy {
    SingleVisibleMessage,
    AckThenAppend,
    ToolSummaryOnly,
}

impl DeliveryPolicy {
    pub open spec fn spec_name(self) -> Seq<char> {
        match self {
            DeliveryPolicy::SingleVisibleMessage => "single_visible_message"@,
            DeliveryPolicy::AckThenAppend => "ack_then_append"@,
            DeliveryPolicy::ToolSummaryOnly => "tool_summary_only"@,
        }
    }

    pub fn as_str(self) -> (r: &'static str)
        ensures
            r@ == self.spec_name(),
    {
        match self {
            DeliveryPolicy::SingleVisibleMessage => "single_visible_message",
            DeliveryPolicy::AckThenAppend => "ack_then_append",
            DeliveryPolicy::ToolSummaryOnly => "tool_summary_only",
        }
    }
}

// ---------------------------------------------------------------------------
// Plans
// ---------------------------------------------------------------------------

/// What the tools may do in a turn.
#[derive(Debug, Clone)]
pub enum ToolPolicy {
    NoTools,
    Exact(ToolRequest),
    AllowStructuredDecision,
}

pub enum ToolPolicyView {
    NoTools,
    Exact(ToolRequestView),
    AllowStructuredDecision,
}

impl View for ToolPolicy {
    type V = ToolPolicyView;

    open spec fn view(&self) -> ToolPolicyView {
        match self {
            ToolPolicy::NoTools => ToolPolicyView::NoTools,
            ToolPolicy::Exact(r) => ToolPolicyView::Exact(r@),
            ToolPolicy::AllowStructuredDecision => ToolPolicyView::AllowStructuredDecision,
        }
    }
}

/// One beat of a plan.
#[derive(Debug, Clone, Copy, PartialEq, Eq, Structural)]
pub struct BeatPlan {
    pub kind: BeatKind,
    pub role: ExecutionRole,
    pub context_recipe: ContextPolicy,
    pub output_contract: PromptOutputContract,
    pub visible: bool,
    pub optional: bool,
}

/// What the runtime can do right now.
#[derive(Debug, Clone, Copy, PartialEq, Eq, Structural)]
pub struct RuntimeCapabilities {
    pub local_reply: bool,
    pub fast_ack: bool,
    pub cloud_reasoning: bool,
}

/// What planning knows of a turn.
#[derive(Debug, Clone)]
pub struct TurnIntent {
    pub strong_memory_hit: bool,
    pub recall_like: bool,
    pub deep: bool,
    pub tool_intent: ToolIntentMatch,
    pub continuity_mode: ContinuityMode,
    pub runtime_capabilities: RuntimeCapabilities,
}

pub struct IntentView {
    pub strong_memory_hit: bool,
    pub recall_like: bool,
    pub deep: bool,
    pub tool_intent: ToolIntentView,
    pub continuity_mode: ContinuityMode,
    pub runtime_capabilities: RuntimeCapabilities,
}

impl View for TurnIntent {
    type V = IntentView;

    open spec fn view(&self) -> IntentView {
        IntentView {
            strong_memory_hit: self.strong_memory_hit,
            recall_like: self.recall_like,
            deep: self.deep,
            tool_intent: self.tool_intent@,
            continuity_mode: self.continuity_mode,
            runtime_capabilities: self.runtime_capabilities,
        }
    }
}

/// How a turn is carried out.
#[derive(Debug, Clone)]
pub struct TurnExecutionPlan {
    pub plan_kind: TurnPlanKind,
    pub context_policy: ContextPolicy,
    pub include_tool_guidance: bool,
    pub prefer_memory_facts: bool,
    pub tool_consulted: bool,
    pub tool_policy: ToolPolicy,
    pub delivery_policy: DeliveryPolicy,
    pub beats: Vec<BeatPlan>,
    pub reason_codes: Vec<String>,
}

pub struct PlanView {
    pub plan_kind: TurnPlanKind,
    pub context_policy: ContextPolicy,
    pub include_tool_guidance: bool,
    pub prefer_memory_facts: bool,
    pub tool_consulted: bool,
    pub tool_policy: ToolPolicyView,
    pub delivery_policy: DeliveryPolicy,
    pub beats: Seq<BeatPlan>,
    pub reason_codes: Seq<Seq<char>>,
}

impl View for TurnExecutionPlan {
    type V = PlanView;

    open spec fn view(&self) -> PlanView {
        PlanView {
            plan_kind: self.plan_kind,
            context_policy: self.context_policy,
            include_tool_guidance: self.include_tool_guidance,
            prefer_memory_facts: self.prefer_memory_facts,
            tool_consulted: self.tool_consulted,
            tool_policy: self.tool_policy@,
            delivery_policy: self.delivery_policy,
            beats: self.beats@,
            reason_codes: strs_view(self.reason_codes@),
        }
    }
}

/// The index of the first beat of `kind`.
pub open spec fn first_index_of(beats: Seq<BeatPlan>, kind: BeatKind) -> Option<int>
    decreases beats.len(),
{
    if beats.len() == 0 {
        None
    } else if beats[0].kind == kind {
        Some(0)
    } else {
        match first_index_of(beats.drop_first(), kind) {
            Some(i) => Some(i + 1),
            None => None,
        }
    }
}

/// The first beat of `kind`.
pub open spec fn first_beat_of(beats: Seq<BeatPlan>, kind: BeatKind) -> Option<BeatPlan> {
    match first_index_of(beats, kind) {
        Some(i) => Some(beats[i]),
        None => None,
    }
}

/// Whether some beat is played by the cloud model.
pub open spec fn beats_use_cloud(beats: Seq<BeatPlan>) -> bool {
    exists|i: int| 0 <= i < beats.len() && (#[trigger] beats[i]).role.spec_is_cloud()
}

proof fn lemma_first_index_bounds(beats: Seq<BeatPlan>, kind: BeatKind)
    ensures
        match first_index_of(beats, kind) {
            Some(i) => 0 <= i < beats.len() && beats[i].kind == kind && forall|j: int|
                0 <= j < i ==> beats[j].kind != kind,
            None => forall|j: int| 0 <= j < beats.len() ==> beats[j].kind != kind,
        },
    decreases beats.len(),
{
    if beats.len() > 0 && beats[0].kind != kind {
        lemma_first_index_bounds(beats.drop_first(), kind);
        match first_index_of(beats.drop_first(), kind) {
            Some(i) => {
                assert forall|j: int| 0 <= j < i + 1 implies beats[j].kind != kind by {
                    if j > 0 {
                        assert(beats[j] == beats.drop_first()[j - 1]);
                    }
                }
            },
            None => {
                assert forall|j: int| 0 <= j < beats.len() implies beats[j].kind != kind by {
                    if j > 0 {
                        assert(beats[j] == beats.drop_first()[j - 1]);
                    }
                }
            },
        }
    }
}

fn find_beat_index(beats: &Vec<BeatPlan>, kind: BeatKind) -> (r: Option<usize>)
    ensures
        match (r, first_index_of(beats@, kind)) {
            (Some(i), Some(j)) => i == j && i < beats@.len() && beats@[j].kind == kind,
            (None, None) => true,
            _ => false,
        },
{
    proof {
        lemma_first_index_bounds(beats@, kind);
    }
    let mut i: usize = 0;
    while i < beats.len()
        invariant
            i <= beats.len(),
            forall|j: int| 0 <= j < i ==> beats@[j].kind != kind,
            match first_index_of(beats@, kind) {
                Some(k) => 0 <= k < beats@.len() && beats@[k].kind == kind && forall|j: int|
                    0 <= j < k ==> beats@[j].kind != kind,
                None => forall|j: int| 0 <= j < beats@.len() ==> beats@[j].kind != kind,
            },
        decreases beats.len() - i,
    {
        if beats[i].kind == kind {
            proof {
                match first_index_of(beats@, kind) {
                    Some(k) => {
                        if k < i {
                            assert(beats@[k].kind != kind);
                        } else if k > i {
                            assert(beats@[i as int].kind != kind);
                        }
                    },
                    None => {
                        assert(beats@[i as int].kind != kind);
                    },
                }
            }
            return Some(i);
        }
        i = i + 1;
    }
    None
}

impl TurnExecutionPlan {
    /// The acknowledgement beat, if the plan has one.
    pub fn ack_beat(&self) -> (r: Option<BeatPlan>)
        ensures
            r == first_beat_of(self.beats@, BeatKind::Acknowledge),
    {
        match find_beat_index(&self.beats, BeatKind::Acknowledge) {
            Some(i) => Some(self.beats[i]),
            None => None,
        }
    }

    /// The primary beat, if the plan has one.
    pub fn primary_beat(&self) -> (r: Option<BeatPlan>)
        ensures
            r == first_beat_of(self.beats@, BeatKind::Primary),
    {
        match find_beat_index(&self.beats, BeatKind::Primary) {
            Some(i) => Some(self.beats[i]),
            None => None,
        }
    }

    /// Whether any beat is played by the cloud model.
    pub fn uses_cloud(&self) -> (r: bool)
        ensures
            r == beats_use_cloud(self.beats@),
    {
        let mut i: usize = 0;
        while i < self.beats.len()
            invariant
                i <= self.beats.len(),
                forall|j: int| 0 <= j < i ==> !(#[trigger] self.beats@[j]).role.spec_is_cloud(),
            decreases self.beats.len() - i,
        {
            let role = self.beats[i].role;
            if role == ExecutionRole::CloudReply || role == ExecutionRole::DeepReasoning || role
                == ExecutionRole::StructuredToolDecision {
                assert(self.beats@[i as int].role.spec_is_cloud());
                return true;
            }
            i = i + 1;
        }
        false
    }
}

// ---------------------------------------------------------------------------
// The routing rules
// ---------------------------------------------------------------------------

pub open spec fn beat(
    kind: BeatKind,
    role: ExecutionRole,
    context_recipe: ContextPolicy,
    output_contract: PromptOutputContract,
    optional: bool,
) -> BeatPlan {
    BeatPlan { kind, role, context_recipe, output_contract, visible: true, optional }
}

/// The optional acknowledgement beat that the local model plays first.
pub open spec fn ack_beat_plan() -> BeatPlan {
    beat(
        BeatKind::Acknowledge,
        ExecutionRole::FastAck,
        ContextPolicy::TranscriptOnly,
        PromptOutputContract::PlainText,
        true,
    )
}

/// The primary beat, preceded by the acknowledgement where the runtime can give one.
pub open spec fn with_ack(fast_ack: bool, primary: BeatPlan) -> Seq<BeatPlan> {
    if fast_ack {
        seq![ack_beat_plan(), primary]
    } else {
        seq![primary]
    }
}

pub open spec fn ack_delivery(fast_ack: bool) -> DeliveryPolicy {
    if fast_ack {
        DeliveryPolicy::AckThenAppend
    } else {
        DeliveryPolicy::SingleVisibleMessage
    }
}

/// Where the runtime has no local model but has the cloud, a plan whose primary
/// beat needs the local model is given to the cloud instead.
pub open spec fn spec_adapt_plan(plan: PlanView, caps: RuntimeCapabilities) -> PlanView {
    match first_beat_of(plan.beats, BeatKind::Primary) {
        None => plan,
        Some(primary) => if (primary.role == ExecutionRole::LocalReply || primary.role
            == ExecutionRole::MemoryReply) && !caps.local_reply && caps.cloud_reasoning {
            PlanView {
                plan_kind: TurnPlanKind::CloudEscalated,
                delivery_policy: DeliveryPolicy::SingleVisibleMessage,
                beats: seq![
                    beat(
                        BeatKind::Primary,
                        ExecutionRole::CloudReply,
                        plan.context_policy,
                        PromptOutputContract::JsonEnvelope,
                        false,
                    ),
                ],
                reason_codes: plan.reason_codes.push("capability:cloud_reply_substitution"@),
                ..plan
            }
        } else {
            plan
        },
    }
}

/// The plan for a recall question answered from durable memory.
pub open spec fn recall_plan() -> PlanView {
    PlanView {
        plan_kind: TurnPlanKind::RecallNano,
        context_policy: ContextPolicy::DurableOnly,
        include_tool_guidance: false,
        prefer_memory_facts: true,
        tool_consulted: false,
        tool_policy: ToolPolicyView::NoTools,
        delivery_policy: DeliveryPolicy::SingleVisibleMessage,
        beats: seq![
            beat(
                BeatKind::Primary,
                ExecutionRole::MemoryReply,
                ContextPolicy::DurableOnly,
                PromptOutputContract::PlainText,
                false,
            ),
        ],
        reason_codes: seq!["strong_durable_memory_hit"@],
    }
}

/// The default plan: the local model replies from the transcript.
pub open spec fn direct_plan(prefer_memory_facts: bool) -> PlanView {
    PlanView {
        plan_kind: TurnPlanKind::DirectNano,
        context_policy: ContextPolicy::TranscriptOnly,
        include_tool_guidance: false,
        prefer_memory_facts,
        tool_consulted: false,
        tool_policy: ToolPolicyView::NoTools,
        delivery_policy: DeliveryPolicy::SingleVisibleMessage,
        beats: seq![
            beat(
                BeatKind::Primary,
                ExecutionRole::LocalReply,
                ContextPolicy::TranscriptOnly,
                PromptOutputContract::PlainText,
                false,
            ),
        ],
        reason_codes: seq!["default_direct"@],
    }
}

/// The routing rules, first match wins: an exact tool request runs the tool; a
/// probable tool asks the cloud for a tool decision; a recall question with a
/// strong memory hit is answered locally from memory; a deep turn goes to the
/// cloud; anything else is answered locally from the transcript.
pub open spec fn spec_plan_route(intent: IntentView) -> PlanView {
    let caps = intent.runtime_capabilities;
    match intent.tool_intent.exact_request {
        Some(request) => PlanView {
            plan_kind: TurnPlanKind::ToolDirect,
            context_policy: ContextPolicy::TranscriptOnly,
            include_tool_guidance: false,
            prefer_memory_facts: false,
            tool_consulted: true,
            tool_policy: ToolPolicyView::Exact(request),
            delivery_policy: DeliveryPolicy::ToolSummaryOnly,
            beats: seq![
                beat(
                    BeatKind::Primary,
                    ExecutionRole::DeterministicTool,
                    ContextPolicy::TranscriptOnly,
                    PromptOutputContract::PlainText,
                    false,
                ),
            ],
            reason_codes: seq!["tool_intent_exact"@],
        },
        None => match intent.tool_intent.probable_tool {
            Some(tool) => PlanView {
                plan_kind: TurnPlanKind::CloudTool,
                context_policy: ContextPolicy::TranscriptOnly,
                include_tool_guidance: true,
                prefer_memory_facts: false,
                tool_consulted: true,
                tool_policy: ToolPolicyView::AllowStructuredDecision,
                delivery_policy: ack_delivery(caps.fast_ack),
                beats: with_ack(
                    caps.fast_ack,
                    beat(
                        BeatKind::Primary,
                        ExecutionRole::StructuredToolDecision,
                        ContextPolicy::TranscriptOnly,
                        PromptOutputContract::JsonEnvelope,
                        false,
                    ),
                ),
                reason_codes: seq!["tool_intent_probable:"@ + tool.spec_name()],
            },
            None => if intent.recall_like && intent.strong_memory_hit && !intent.deep {
                spec_adapt_plan(recall_plan(), caps)
            } else if intent.deep {
                let policy = if intent.strong_memory_hit {
                    ContextPolicy::TranscriptPlusDurable
                } else {
                    ContextPolicy::TranscriptOnly
                };
                PlanView {
                    plan_kind: TurnPlanKind::CloudEscalated,
                    context_policy: policy,
                    include_tool_guidance: false,
                    prefer_memory_facts: false,
                    tool_consulted: false,
                    tool_policy: ToolPolicyView::NoTools,
                    delivery_policy: ack_delivery(caps.fast_ack),
                    beats: with_ack(
                        caps.fast_ack,
                        beat(
                            BeatKind::Primary,
                            ExecutionRole::DeepReasoning,
                            policy,
                            PromptOutputContract::JsonEnvelope,
                            false,
                        ),
                    ),
                    reason_codes: seq!["deep_reasoning"@],
                }
            } else {
                spec_adapt_plan(
                    direct_plan(
                        intent.continuity_mode == ContinuityMode::Return || intent.continuity_mode
                            == ContinuityMode::OpenLoop,
                    ),
                    caps,
                )
            },
        },
    }
}

/// The reason code that a continuity mode adds, if any.
pub open spec fn continuity_reason(mode: ContinuityMode) -> Option<Seq<char>> {
    match mode {
        ContinuityMode::OnThread => Some("continuity:on_thread"@),
        ContinuityMode::Pivot => Some("continuity:pivot"@),
        ContinuityMode::Return => Some("continuity:return"@),
        ContinuityMode::OpenLoop => Some("continuity:open_loop"@),
        ContinuityMode::Ambiguous => None,
    }
}

/// The context policy after continuity: a pivot keeps a direct plan on the
/// transcript; a return to a thread with remembered items widens a transcript-only
/// direct or escalated plan to durable memory too; an open loop does so for a
/// direct plan.
pub open spec fn continuity_policy(
    plan: PlanView,
    mode: ContinuityMode,
    has_thread_memories: bool,
) -> ContextPolicy {
    match mode {
        ContinuityMode::Pivot => if plan.plan_kind == TurnPlanKind::DirectNano {
            ContextPolicy::TranscriptOnly
        } else {
            plan.context_policy
        },
        ContinuityMode::Return => if has_thread_memories && plan.context_policy
            == ContextPolicy::TranscriptOnly && (plan.plan_kind == TurnPlanKind::DirectNano
            || plan.plan_kind == TurnPlanKind::CloudEscalated) {
            ContextPolicy::TranscriptPlusDurable
        } else {
            plan.context_policy
        },
        ContinuityMode::OpenLoop => if has_thread_memories && plan.plan_kind
            == TurnPlanKind::DirectNano && plan.context_policy == ContextPolicy::TranscriptOnly {
            ContextPolicy::TranscriptPlusDurable
        } else {
            plan.context_policy
        },
        _ => plan.context_policy,
    }
}

/// The plan with continuity applied: its reason recorded, its context policy
/// adjusted, and the primary beat drawing on that policy.
pub open spec fn spec_apply_continuity(
    plan: PlanView,
    mode: ContinuityMode,
    has_thread_memories: bool,
) -> PlanView {
    let policy = continuity_policy(plan, mode, has_thread_memories);
    PlanView {
        context_policy: policy,
        reason_codes: match continuity_reason(mode) {
            Some(r) => plan.reason_codes.push(r),
            None => plan.reason_codes,
        },
        beats: match first_index_of(plan.beats, BeatKind::Primary) {
            Some(i) => plan.beats.update(i, BeatPlan { context_recipe: policy, ..plan.beats[i] }),
            None => plan.beats,
        },
        ..plan
    }
}

fn beat_value(
    kind: BeatKind,
    role: ExecutionRole,
    context_recipe: ContextPolicy,
    output_contract: PromptOutputContract,
    optional: bool,
) -> (r: BeatPlan)
    ensures
        r == beat(kind, role, context_recipe, output_contract, optional),
{
    BeatPlan { kind, role, context_recipe, output_contract, visible: true, optional }
}

fn one_reason(code: &str) -> (r: Vec<String>)
    ensures
        strs_view(r@) == seq![code@],
{
    let mut r: Vec<String> = Vec::new();
    r.push(code.to_owned());
    assert(strs_view(r@) =~= seq![code@]);
    r
}

fn push_reason(codes: &mut Vec<String>, code: &str)
    ensures
        strs_view(final(codes)@) == strs_view(old(codes)@).push(code@),
{
    codes.push(code.to_owned());
    assert(strs_view(codes@) =~= strs_view(old(codes)@).push(code@));
}

fn beats_with_ack(fast_ack: bool, primary: BeatPlan) -> (r: Vec<BeatPlan>)
    ensures
        r@ == with_ack(fast_ack, primary),
{
    let mut beats: Vec<BeatPlan> = Vec::new();
    if fast_ack {
        beats.push(
            beat_value(
                BeatKind::Acknowledge,
                ExecutionRole::FastAck,
                ContextPolicy::TranscriptOnly,
                PromptOutputContract::PlainText,
                true,
            ),
        );
    }
    beats.push(primary);
    assert(beats@ =~= with_ack(fast_ack, primary));
    beats
}

/// Gives a plan whose primary beat needs the local model to the cloud where
/// only the cloud is available.
pub fn adapt_plan_to_runtime_capabilities(
    plan: TurnExecutionPlan,
    runtime_capabilities: RuntimeCapabilities,
) -> (r: TurnExecutionPlan)
    ensures
        r@ == spec_adapt_plan(plan@, runtime_capabilities),
{
    let mut plan = plan;
    let primary_beat = match plan.primary_beat() {
        Some(b) => b,
        None => return plan,
    };
    if (primary_beat.role == ExecutionRole::LocalReply || primary_beat.role
        == ExecutionRole::MemoryReply) && !runtime_capabilities.local_reply
        && runtime_capabilities.cloud_reasoning {
        let ghost before = plan@;
        plan.plan_kind = TurnPlanKind::CloudEscalated;
        plan.delivery_policy = DeliveryPolicy::SingleVisibleMessage;
        let mut beats: Vec<BeatPlan> = Vec::new();
        beats.push(
            beat_value(
                BeatKind::Primary,
                ExecutionRole::CloudReply,
                plan.context_policy,
                PromptOutputContract::JsonEnvelope,
                false,
            ),
        );
        plan.beats = beats;
        push_reason(&mut plan.reason_codes, "capability:cloud_reply_substitution");
        assert(plan@.beats =~= spec_adapt_plan(before, runtime_capabilities).beats);
    }
    plan
}

/// Plans a turn from what is known of it (before continuity is applied).
pub fn plan_turn_route_with_strong_hit(intent: TurnIntent) -> (r: TurnExecutionPlan)
    ensures
        r@ == spec_plan_route(intent@),
{
    let caps = intent.runtime_capabilities;
    if let Some(exact_request) = intent.tool_intent.exact_request {
        let mut beats: Vec<BeatPlan> = Vec::new();
        beats.push(
            beat_value(
                BeatKind::Primary,
                ExecutionRole::DeterministicTool,
                ContextPolicy::TranscriptOnly,
                PromptOutputContract::PlainText,
                false,
            ),
        );
        let r = TurnExecutionPlan {
            plan_kind: TurnPlanKind::ToolDirect,
            context_policy: ContextPolicy::TranscriptOnly,
            include_tool_guidance: false,
            prefer_memory_facts: false,
            tool_consulted: true,
            tool_policy: ToolPolicy::Exact(exact_request),
            delivery_policy: DeliveryPolicy::ToolSummaryOnly,
            beats,
            reason_codes: one_reason("tool_intent_exact"),
        };
        assert(r@.beats =~= spec_plan_route(intent@).beats);
        return r;
    }
    if let Some(probable_tool) = intent.tool_intent.probable_tool {
        let beats = beats_with_ack(
            caps.fast_ack,
            beat_value(
                BeatKind::Primary,
                ExecutionRole::StructuredToolDecision,
                ContextPolicy::TranscriptOnly,
                PromptOutputContract::JsonEnvelope,
                false,
            ),
        );
        let mut code: Vec<char> = Vec::new();
        append_str(&mut code, "tool_intent_probable:");
        append_str(&mut code, probable_tool.as_str());
        let mut reason_codes: Vec<String> = Vec::new();
        reason_codes.push(string_of(&code));
        assert(strs_view(reason_codes@) =~= seq!["tool_intent_probable:"@ + probable_tool.spec_name()]);
        return TurnExecutionPlan {
            plan_kind: TurnPlanKind::CloudTool,
            context_policy: ContextPolicy::TranscriptOnly,
            include_tool_guidance: true,
            prefer_memory_facts: false,
            tool_consulted: true,
            tool_policy: ToolPolicy::AllowStructuredDecision,
            delivery_policy: if caps.fast_ack {
                DeliveryPolicy::AckThenAppend
            } else {
                DeliveryPolicy::SingleVisibleMessage
            },
            beats,
            reason_codes,
        };
    }
    if intent.recall_like && intent.strong_memory_hit && !intent.deep {
        let mut beats: Vec<BeatPlan> = Vec::new();
        beats.push(
            beat_value(
                BeatKind::Primary,
                ExecutionRole::MemoryReply,
                ContextPolicy::DurableOnly,
                PromptOutputContract::PlainText,
                false,
            ),
        );
        let plan = TurnExecutionPlan {
            plan_kind: TurnPlanKind::RecallNano,
            context_policy: ContextPolicy::DurableOnly,
            include_tool_guidance: false,
            prefer_memory_facts: true,
            tool_consulted: false,
            tool_policy: ToolPolicy::NoTools,
            delivery_policy: DeliveryPolicy::SingleVisibleMessage,
            beats,
            reason_codes: one_reason("strong_durable_memory_hit"),
        };
        assert(plan@.beats =~= recall_plan().beats);
        return adapt_plan_to_runtime_capabilities(plan, caps);
    }
    if intent.deep {
        let context_policy = if intent.strong_memory_hit {
            ContextPolicy::TranscriptPlusDurable
        } else {
            ContextPolicy::TranscriptOnly
        };
        let beats = beats_with_ack(
            caps.fast_ack,
            beat_value(
                BeatKind::Primary,
                ExecutionRole::DeepReasoning,
                context_policy,
                PromptOutputContract::JsonEnvelope,
                false,
            ),
        );
        return TurnExecutionPlan {
            plan_kind: TurnPlanKind::CloudEscalated,
            context_policy,
            include_tool_guidance: false,
            prefer_memory_facts: false,
            tool_consulted: false,
            tool_policy: ToolPolicy::NoTools,
            delivery_policy: if caps.fast_ack {
                DeliveryPolicy::AckThenAppend
            } else {
                DeliveryPolicy::SingleVisibleMessage
            },
            beats,
            reason_codes: one_reason("deep_reasoning"),
        };
    }
    let mut beats: Vec<BeatPlan> = Vec::new();
    beats.push(
        beat_value(
            BeatKind::Primary,
            ExecutionRole::LocalReply,
            ContextPolicy::TranscriptOnly,
            PromptOutputContract::PlainText,
            false,
        ),
    );
    let prefer = intent.continuity_mode == ContinuityMode::Return || intent.continuity_mode
        == ContinuityMode::OpenLoop;
    let plan = TurnExecutionPlan {
        plan_kind: TurnPlanKind::DirectNano,
        context_policy: ContextPolicy::TranscriptOnly,
        include_tool_guidance: false,
        prefer_memory_facts: prefer,
        tool_consulted: false,
        tool_policy: ToolPolicy::NoTools,
        delivery_policy: DeliveryPolicy::SingleVisibleMessage,
        beats,
        reason_codes: one_reason("default_direct"),
    };
    assert(plan@.beats =~= direct_plan(prefer).beats);
    adapt_plan_to_runtime_capabilities(plan, caps)
}

/// Records the continuity mode on the plan and adjusts its context policy.
pub fn apply_continuity_to_plan(
    plan: TurnExecutionPlan,
    continuity_mode: ContinuityMode,
    selected_thread_memory_ids: &[i64],
) -> (r: TurnExecutionPlan)
    ensures
        r@ == spec_apply_continuity(plan@, continuity_mode, selected_thread_memory_ids@.len() > 0),
{
    let mut plan = plan;
    let ghost before = plan@;
    let has = selected_thread_memory_ids.len() > 0;
    match continuity_mode {
        ContinuityMode::OnThread => {
            push_reason(&mut plan.reason_codes, "continuity:on_thread");
        },
        ContinuityMode::Pivot => {
            push_reason(&mut plan.reason_codes, "continuity:pivot");
            if plan.plan_kind == TurnPlanKind::DirectNano {
                plan.context_policy = ContextPolicy::TranscriptOnly;
            }
        },
        ContinuityMode::Return => {
            push_reason(&mut plan.reason_codes, "continuity:return");
            if has && plan.context_policy == ContextPolicy::TranscriptOnly && (plan.plan_kind
                == TurnPlanKind::DirectNano || plan.plan_kind == TurnPlanKind::CloudEscalated) {
                plan.context_policy = ContextPolicy::TranscriptPlusDurable;
            }
        },
        ContinuityMode::OpenLoop => {
            push_reason(&mut plan.reason_codes, "continuity:open_loop");
            if has && plan.plan_kind == TurnPlanKind::DirectNano && plan.context_policy
                == ContextPolicy::TranscriptOnly {
                plan.context_policy = ContextPolicy::TranscriptPlusDurable;
            }
        },
        ContinuityMode::Ambiguous => {},
    }
    assert(plan.context_policy == continuity_policy(before, continuity_mode, has));
    match find_beat_index(&plan.beats, BeatKind::Primary) {
        Some(i) => {
            let mut b = plan.beats[i];
            b.context_recipe = plan.context_policy;
            plan.beats.set(i, b);
        },
        None => {},
    }
    plan
}

// ---------------------------------------------------------------------------
// Reading a turn
// ---------------------------------------------------------------------------

/// A question about something remembered: it opens with who, what, when or
/// where, or asks who's or what's, or asks to remember or be reminded, or names
/// the user's cat or stack.
pub open spec fn spec_is_recall_like(lower: Seq<char>) -> bool {
    starts_with(lower, "who "@) || starts_with(lower, "what "@) || starts_with(lower, "when "@)
        || starts_with(lower, "where "@) || contains(lower, "who's "@) || contains(
        lower,
        "what's "@,
    ) || contains(lower, "do you remember"@) || contains(lower, "remind me"@) || contains(
        lower,
        "my cat"@,
    ) || contains(lower, "my stack"@)
}

pub fn is_recall_like_turn(lower: &str) -> (r: bool)
    ensures
        r == spec_is_recall_like(lower@),
{
    let v = chars_of(lower);
    starts_with_str(&v, "who ") || starts_with_str(&v, "what ") || starts_with_str(&v, "when ")
        || starts_with_str(&v, "where ") || contains_str(&v, "who's ") || contains_str(
        &v,
        "what's ",
    ) || contains_str(&v, "do you remember") || contains_str(&v, "remind me") || contains_str(
        &v,
        "my cat",
    ) || contains_str(&v, "my stack")
}

/// A deep turn: more than eighteen words, or it asks to analyze, compare,
/// explain or summarize.
pub open spec fn spec_is_deep(lower: Seq<char>) -> bool {
    words(lower).len() > 18 || contains(lower, "analyze"@) || contains(lower, "compare"@)
        || contains(lower, "explain"@) || contains(lower, "summarize"@)
}

/// What planning reads from a turn's text.
pub open spec fn spec_build_turn_intent(
    text: Seq<char>,
    strong_memory_hit: bool,
    continuity_mode: ContinuityMode,
    runtime_capabilities: RuntimeCapabilities,
) -> IntentView {
    let lower = spec_to_lowercase(text);
    IntentView {
        strong_memory_hit,
        recall_like: spec_is_recall_like(lower),
        deep: spec_is_deep(lower),
        tool_intent: spec_detect_tool_intent(text),
        continuity_mode,
        runtime_capabilities,
    }
}

pub fn build_turn_intent(
    text: &str,
    strong_memory_hit: bool,
    continuity_mode: ContinuityMode,
    runtime_capabilities: RuntimeCapabilities,
) -> (r: TurnIntent)
    ensures
        r@ == spec_build_turn_intent(text@, strong_memory_hit, continuity_mode, runtime_capabilities),
{
    let lower = lowercase_chars(text);
    let lower_s = string_of(&lower);
    let word_count = split_words(&lower).len();
    let deep = word_count > 18 || contains_str(&lower, "analyze") || contains_str(&lower, "compare")
        || contains_str(&lower, "explain") || contains_str(&lower, "summarize");
    TurnIntent {
        strong_memory_hit,
        recall_like: is_recall_like_turn(lower_s.as_str()),
        deep,
        tool_intent: detect_tool_intent(text),
        continuity_mode,
        runtime_capabilities,
    }
}

/// The whole planning step: read the turn, route it, apply continuity.
pub open spec fn spec_plan_turn_route(
    text: Seq<char>,
    strong_memory_hit: bool,
    continuity_mode: ContinuityMode,
    has_thread_memories: bool,
    runtime_capabilities: RuntimeCapabilities,
) -> PlanView {
    spec_apply_continuity(
        spec_plan_route(
            spec_build_turn_intent(text, strong_memory_hit, continuity_mode, runtime_capabilities),
        ),
        continuity_mode,
        has_thread_memories,
    )
}

/// Plans a turn from its text, whether recall found a strong memory hit, and the
/// continuity that recall found (its mode and the thread's remembered items).
pub fn plan_turn_route(
    text: &str,
    strong_memory_hit: bool,
    continuity_mode: ContinuityMode,
    selected_thread_memory_ids: &[i64],
    runtime_capabilities: RuntimeCapabilities,
) -> (r: TurnExecutionPlan)
    ensures
        r@ == spec_plan_turn_route(
            text@,
            strong_memory_hit,
            continuity_mode,
            selected_thread_memory_ids@.len() > 0,
            runtime_capabilities,
        ),
{
    let intent = build_turn_intent(text, strong_memory_hit, continuity_mode, runtime_capabilities);
    let plan = plan_turn_route_with_strong_hit(intent);
    apply_continuity_to_plan(plan, continuity_mode, selected_thread_memory_ids)
}

/// Plans a turn without continuity (as when the recall pass is unavailable).
pub fn plan_turn_route_compat(
    text: &str,
    strong_memory_hit: bool,
    runtime_capabilities: RuntimeCapabilities,
) -> (r: TurnExecutionPlan)
    ensures
        r@ == spec_plan_route(
            spec_build_turn_intent(
                text@,
                strong_memory_hit,
                ContinuityMode::Ambiguous,
                runtime_capabilities,
            ),
        ),
{
    plan_turn_route_with_strong_hit(
        build_turn_intent(text, strong_memory_hit, ContinuityMode::Ambiguous, runtime_capabilities),
    )
}


// ---------------------------------------------------------------------------
// Laws of planning
// ---------------------------------------------------------------------------

/// A turn is answered from durable memory (the recall route, or the cloud
/// standing in for it, which carries the reason `strong_durable_memory_hit`)
/// only where recall found a strong memory hit. A turn with no tool intent,
/// no strong hit and nothing deep is answered by the local model from the
/// transcript alone, for the reason `default_direct`, where a local model can
/// reply.
pub proof fn lemma_memory_route_needs_strong_hit(intent: IntentView)
    ensures
        spec_plan_route(intent).plan_kind == TurnPlanKind::RecallNano ==> intent.strong_memory_hit,
        spec_plan_route(intent).context_policy == ContextPolicy::DurableOnly ==> intent.strong_memory_hit,
        spec_plan_route(intent).reason_codes.len() > 0 && spec_plan_route(intent).reason_codes[0]
            == "strong_durable_memory_hit"@ ==> intent.strong_memory_hit,
        (intent.tool_intent.exact_request is None && intent.tool_intent.probable_tool is None
            && !intent.strong_memory_hit && !intent.deep && intent.runtime_capabilities.local_reply) ==> {
            let p = spec_plan_route(intent);
            &&& p.plan_kind == TurnPlanKind::DirectNano
            &&& p.context_policy == ContextPolicy::TranscriptOnly
            &&& p.reason_codes == seq!["default_direct"@]
            &&& p.beats.len() == 1
            &&& p.beats[0].kind == BeatKind::Primary
            &&& p.beats[0].role == ExecutionRole::LocalReply
            &&& p.beats[0].context_recipe == ContextPolicy::TranscriptOnly
        },
{
    reveal_strlit("strong_durable_memory_hit");
    reveal_strlit("tool_intent_exact");
    reveal_strlit("tool_intent_probable:");
    reveal_strlit("deep_reasoning");
    reveal_strlit("default_direct");
    let p = spec_plan_route(intent);
    let caps = intent.runtime_capabilities;
    match intent.tool_intent.exact_request {
        Some(_) => {
            assert(p.reason_codes[0] == "tool_intent_exact"@);
            assert(p.reason_codes[0].len() != "strong_durable_memory_hit"@.len());
        },
        None => match intent.tool_intent.probable_tool {
            Some(tool) => {
                reveal_strlit("spotify");
                reveal_strlit("hue");
                assert(p.reason_codes[0] == "tool_intent_probable:"@ + tool.spec_name());
                assert(p.reason_codes[0].len() != "strong_durable_memory_hit"@.len());
            },
            None => if intent.recall_like && intent.strong_memory_hit && !intent.deep {
            } else if intent.deep {
                assert(p.reason_codes[0] == "deep_reasoning"@);
                assert(p.reason_codes[0].len() != "strong_durable_memory_hit"@.len());
            } else {
                let d = direct_plan(
                    intent.continuity_mode == ContinuityMode::Return || intent.continuity_mode
                        == ContinuityMode::OpenLoop,
                );
                assert(first_index_of(d.beats, BeatKind::Primary) == Some(0int));
                if !caps.local_reply && caps.cloud_reasoning {
                    assert(p.reason_codes == d.reason_codes.push("capability:cloud_reply_substitution"@));
                    assert(p.reason_codes[0] == "default_direct"@);
                } else {
                    assert(p == d);
                }
                assert(p.reason_codes[0].len() != "strong_durable_memory_hit"@.len());
            },
        },
    }
}

/// After continuity too, a turn is answered from durable memory alone only
/// where recall found a strong memory hit.
pub proof fn lemma_planned_memory_route_needs_strong_hit(
    text: Seq<char>,
    strong_memory_hit: bool,
    continuity_mode: ContinuityMode,
    has_thread_memories: bool,
    runtime_capabilities: RuntimeCapabilities,
)
    ensures
        spec_plan_turn_route(text, strong_memory_hit, continuity_mode, has_thread_memories, runtime_capabilities).plan_kind
            == TurnPlanKind::RecallNano ==> strong_memory_hit,
{
    let intent = spec_build_turn_intent(text, strong_memory_hit, continuity_mode, runtime_capabilities);
    lemma_memory_route_needs_strong_hit(intent);
    lemma_continuity_keeps_route(spec_plan_route(intent), continuity_mode, has_thread_memories);
}

/// The shape of every routed plan: one or two beats, the last the primary beat,
/// anything before it the acknowledgement; the acknowledgement appears only where
/// the runtime can acknowledge, and exactly when the delivery appends to it.
pub proof fn lemma_plan_shape(intent: IntentView)
    ensures
        ({
            let p = spec_plan_route(intent);
            &&& 1 <= p.beats.len() <= 2
            &&& p.beats.last().kind == BeatKind::Primary
            &&& p.beats.len() == 2 ==> p.beats[0] == ack_beat_plan()
            &&& p.beats.len() == 2 ==> intent.runtime_capabilities.fast_ack
            &&& first_index_of(p.beats, BeatKind::Primary) == Some((p.beats.len() - 1) as int)
            &&& (first_beat_of(p.beats, BeatKind::Acknowledge) is Some) == (p.delivery_policy
                == DeliveryPolicy::AckThenAppend)
        }),
{
    reveal_with_fuel(first_index_of, 3);
    let p = spec_plan_route(intent);
    if p.beats.len() == 2 {
        assert(p.beats.drop_first() =~= seq![p.beats[1]]);
    } else {
        assert(p.beats.drop_first() =~= Seq::<BeatPlan>::empty());
    }
}

/// A turn runs a tool directly exactly when the tool rules found an exact
/// request; that request is then the plan's tool policy, the tool's summary is
/// all that is delivered, and no acknowledgement is shown.
pub proof fn lemma_tool_direct_iff_exact_request(intent: IntentView)
    ensures
        ({
            let p = spec_plan_route(intent);
            &&& (p.plan_kind == TurnPlanKind::ToolDirect) == (intent.tool_intent.exact_request is Some)
            &&& (p.tool_policy is Exact) == (p.plan_kind == TurnPlanKind::ToolDirect)
            &&& p.plan_kind == TurnPlanKind::ToolDirect ==> p.tool_policy == ToolPolicyView::Exact(
                intent.tool_intent.exact_request->0,
            )
            &&& p.plan_kind == TurnPlanKind::ToolDirect ==> p.delivery_policy
                == DeliveryPolicy::ToolSummaryOnly && p.beats.len() == 1
            &&& p.tool_consulted == (intent.tool_intent.exact_request is Some
                || intent.tool_intent.probable_tool is Some)
        }),
{
}

/// A routed plan uses the cloud model exactly when it is a cloud route.
pub proof fn lemma_cloud_iff_cloud_route(intent: IntentView)
    ensures
        ({
            let p = spec_plan_route(intent);
            beats_use_cloud(p.beats) == (p.plan_kind == TurnPlanKind::CloudEscalated || p.plan_kind
                == TurnPlanKind::CloudTool)
        }),
{
    let p = spec_plan_route(intent);
    if beats_use_cloud(p.beats) {
        let i = choose|i: int| 0 <= i < p.beats.len() && (#[trigger] p.beats[i]).role.spec_is_cloud();
        assert(p.beats[i].role.spec_is_cloud());
    }
    if p.plan_kind == TurnPlanKind::CloudEscalated || p.plan_kind == TurnPlanKind::CloudTool {
        assert(p.beats.last().role.spec_is_cloud());
        assert(p.beats[p.beats.len() - 1].role.spec_is_cloud());
    }
}

/// A runtime with a local model never has a local plan moved to the cloud.
pub proof fn lemma_local_runtime_keeps_plan(plan: PlanView, caps: RuntimeCapabilities)
    requires
        caps.local_reply,
    ensures
        spec_adapt_plan(plan, caps) == plan,
{
}

/// Continuity changes only the context policy, the reason codes and the primary
/// beat's context: the route, the delivery and the beats' kinds and roles stay,
/// and afterwards the primary beat draws on the plan's context policy.
pub proof fn lemma_continuity_keeps_route(plan: PlanView, mode: ContinuityMode, has_thread_memories: bool)
    ensures
        ({
            let q = spec_apply_continuity(plan, mode, has_thread_memories);
            &&& q.plan_kind == plan.plan_kind
            &&& q.delivery_policy == plan.delivery_policy
            &&& q.tool_policy == plan.tool_policy
            &&& q.beats.len() == plan.beats.len()
            &&& forall|i: int| 0 <= i < q.beats.len() ==> (#[trigger] q.beats[i]).kind
                == plan.beats[i].kind && q.beats[i].role == plan.beats[i].role
            &&& first_index_of(q.beats, BeatKind::Primary) == first_index_of(plan.beats, BeatKind::Primary)
            &&& match first_beat_of(q.beats, BeatKind::Primary) {
                Some(b) => b.context_recipe == q.context_policy,
                None => true,
            }
        }),
{
    let q = spec_apply_continuity(plan, mode, has_thread_memories);
    lemma_first_index_bounds(plan.beats, BeatKind::Primary);
    lemma_first_index_bounds(q.beats, BeatKind::Primary);
    match first_index_of(plan.beats, BeatKind::Primary) {
        Some(i) => {
            match first_index_of(q.beats, BeatKind::Primary) {
                Some(k) => {
                    if k < i {
                        assert(q.beats[k].kind == plan.beats[k].kind);
                    } else if k > i {
                        assert(q.beats[i].kind == BeatKind::Primary);
                    }
                },
                None => {
                    assert(q.beats[i].kind == BeatKind::Primary);
                },
            }
        },
        None => {
            match first_index_of(q.beats, BeatKind::Primary) {
                Some(k) => {
                    assert(q.beats[k].kind == plan.beats[k].kind);
                },
                None => {},
            }
        },
    }
}

/// After planning, every turn's primary beat draws on the turn's context policy.
pub proof fn lemma_planned_primary_follows_policy(
    text: Seq<char>,
    strong_memory_hit: bool,
    continuity_mode: ContinuityMode,
    has_thread_memories: bool,
    caps: RuntimeCapabilities,
)
    ensures
        ({
            let p = spec_plan_turn_route(text, strong_memory_hit, continuity_mode, has_thread_memories, caps);
            &&& first_beat_of(p.beats, BeatKind::Primary) is Some
            &&& first_beat_of(p.beats, BeatKind::Primary)->0.context_recipe == p.context_policy
        }),
{
    let intent = spec_build_turn_intent(text, strong_memory_hit, continuity_mode, caps);
    lemma_plan_shape(intent);
    lemma_continuity_keeps_route(spec_plan_route(intent), continuity_mode, has_thread_memories);
}


// ---------------------------------------------------------------------------
// Policies and capabilities
// ---------------------------------------------------------------------------

/// The tone allowed for a user turn: no playfulness for urgent or serious
/// turns, and no humour where the turn asks why or speaks of an error or of
/// something broken.
pub open spec fn spec_behavior_policy_for_user_turn(text: Seq<char>) -> BehaviorPolicy {
    let lower = spec_to_lowercase(text);
    let allow_playfulness = !contains(lower, "urgent"@) && !contains(lower, "serious"@);
    BehaviorPolicy {
        allow_ambient: false,
        allow_playfulness,
        allow_humor: allow_playfulness && !contains(lower, "why"@) && !contains(lower, "error"@)
            && !contains(lower, "broken"@),
        prefer_silence: false,
        allow_initiative: false,
    }
}

pub fn behavior_policy_for_user_turn(text: &str) -> (r: BehaviorPolicy)
    ensures
        r == spec_behavior_policy_for_user_turn(text@),
{
    let lower = lowercase_chars(text);
    let allow_playfulness = !contains_str(&lower, "urgent") && !contains_str(&lower, "serious");
    let allow_humor = allow_playfulness && !contains_str(&lower, "why") && !contains_str(
        &lower,
        "error",
    ) && !contains_str(&lower, "broken");
    BehaviorPolicy {
        allow_ambient: false,
        allow_playfulness,
        allow_humor,
        prefer_silence: false,
        allow_initiative: false,
    }
}

/// The runtime's capabilities as its overview shows them: the local model can
/// reply and acknowledge when it is active; the cloud can reason when some
/// profile is available.
pub fn runtime_capabilities(overview: &RuntimeOverview) -> (r: RuntimeCapabilities)
    ensures
        r.local_reply == overview.nano.active,
        r.fast_ack == overview.nano.active,
        r.cloud_reasoning == exists|i: int|
            0 <= i < overview.cloud_profiles@.len() && (#[trigger] overview.cloud_profiles@[i]).available,
{
    let mut any = false;
    let mut i: usize = 0;
    while i < overview.cloud_profiles.len()
        invariant
            i <= overview.cloud_profiles.len(),
            any == exists|j: int| 0 <= j < i && (#[trigger] overview.cloud_profiles@[j]).available,
        decreases overview.cloud_profiles.len() - i,
    {
        if overview.cloud_profiles[i].available {
            any = true;
        }
        i = i + 1;
    }
    RuntimeCapabilities {
        local_reply: overview.nano.active,
        fast_ack: overview.nano.active,
        cloud_reasoning: any,
    }
}

/// The recent messages a policy lets a beat see: all of them where it includes
/// the transcript, none otherwise.
pub fn select_recent_messages_from_slice(recent_messages: &[ChatMessage], policy: ContextPolicy) -> (r: Vec<
    ChatMessage,
>)
    ensures
        r@ == (if policy.spec_includes_transcript() {
            recent_messages@
        } else {
            Seq::empty()
        }),
{
    match policy {
        ContextPolicy::NoContext | ContextPolicy::DurableOnly => Vec::new(),
        ContextPolicy::TranscriptOnly | ContextPolicy::TranscriptPlusDurable => copy_messages(
            recent_messages,
        ),
    }
}

/// Whether an ambient event may be shown: only idle resumes and newly available
/// capabilities, only after the cooldown, and an idle resume only after the
/// idle threshold.
pub open spec fn spec_authorize_ambient(
    event_type: Seq<char>,
    cooldown_elapsed: bool,
    idle_seconds: u64,
    idle_resume_threshold_seconds: u64,
) -> bool {
    if !(event_type == "resume_after_idle"@ || event_type == "capability_available"@) {
        false
    } else if !cooldown_elapsed {
        false
    } else if event_type == "resume_after_idle"@ {
        idle_seconds >= idle_resume_threshold_seconds
    } else {
        true
    }
}

pub fn authorize_ambient(
    event_type: &str,
    cooldown_elapsed: bool,
    idle_seconds: u64,
    idle_resume_threshold_seconds: u64,
) -> (r: bool)
    ensures
        r == spec_authorize_ambient(event_type@, cooldown_elapsed, idle_seconds, idle_resume_threshold_seconds),
{
    let e = chars_of(event_type);
    let resume = chars_eq_str(&e, "resume_after_idle");
    if !(resume || chars_eq_str(&e, "capability_available")) {
        return false;
    }
    if !cooldown_elapsed {
        return false;
    }
    if resume {
        return idle_seconds >= idle_resume_threshold_seconds;
    }
    true
}

// ---------------------------------------------------------------------------
// Turn traces
// ---------------------------------------------------------------------------

/// Whether a stage is one the local model runs.
pub open spec fn is_local_stage(stage: Seq<char>) -> bool {
    stage == "first_beat"@ || stage == "nano_reply"@ || stage == "fallback_nano"@
}

pub open spec fn used_local_model(stages: Seq<Seq<char>>) -> bool {
    exists|i: int| 0 <= i < stages.len() && is_local_stage(#[trigger] stages[i])
}

/// How a turn's output was delivered, from its trace summary.
pub open spec fn spec_delivery_mode(
    stages: Seq<Seq<char>>,
    cloud_used: bool,
    tool_used: bool,
    had_fallback: bool,
) -> Seq<char> {
    if had_fallback {
        if stages.contains("fallback_nano"@) {
            "FALLBACK_NANO"@
        } else {
            "FALLBACK_VISIBLE"@
        }
    } else {
        let local = used_local_model(stages);
        if local && cloud_used && tool_used {
            "NANO_THEN_CLOUD_TOOL"@
        } else if local && cloud_used {
            "NANO_THEN_CLOUD"@
        } else if local && tool_used {
            "NANO_THEN_TOOL"@
        } else if local {
            "NANO_ONLY"@
        } else if !cloud_used && tool_used {
            "TOOL_ONLY"@
        } else {
            "UNSPECIFIED"@
        }
    }
}

fn stages_contain(stages: &Vec<String>, stage: &str) -> (r: bool)
    ensures
        r == strs_view(stages@).contains(stage@),
{
    let mut i: usize = 0;
    while i < stages.len()
        invariant
            i <= stages.len(),
            forall|j: int| 0 <= j < i ==> strs_view(stages@)[j] != stage@,
        decreases stages.len() - i,
    {
        let v = chars_of(stages[i].as_str());
        assert(strs_view(stages@)[i as int] == stages@[i as int]@);
        if chars_eq_str(&v, stage) {
            return true;
        }
        i = i + 1;
    }
    false
}

fn stages_use_local_model(stages: &Vec<String>) -> (r: bool)
    ensures
        r == used_local_model(strs_view(stages@)),
{
    let ghost sv = strs_view(stages@);
    let mut i: usize = 0;
    while i < stages.len()
        invariant
            i <= stages.len(),
            sv == strs_view(stages@),
            forall|j: int| 0 <= j < i ==> !is_local_stage(#[trigger] sv[j]),
        decreases stages.len() - i,
    {
        let v = chars_of(stages[i].as_str());
        assert(sv[i as int] == stages@[i as int]@);
        if chars_eq_str(&v, "first_beat") || chars_eq_str(&v, "nano_reply") || chars_eq_str(
            &v,
            "fallback_nano",
        ) {
            assert(is_local_stage(sv[i as int]));
            return true;
        }
        i = i + 1;
    }
    false
}

pub fn delivery_mode(summary: &TurnTraceSummary) -> (r: String)
    ensures
        r@ == spec_delivery_mode(
            strs_view(summary.model_stages@),
            summary.cloud_used,
            summary.tool_used,
            summary.had_fallback,
        ),
{
    if summary.had_fallback {
        return if stages_contain(&summary.model_stages, "fallback_nano") {
            "FALLBACK_NANO".to_owned()
        } else {
            "FALLBACK_VISIBLE".to_owned()
        };
    }
    let local = stages_use_local_model(&summary.model_stages);
    if local && summary.cloud_used && summary.tool_used {
        "NANO_THEN_CLOUD_TOOL".to_owned()
    } else if local && summary.cloud_used {
        "NANO_THEN_CLOUD".to_owned()
    } else if local && summary.tool_used {
        "NANO_THEN_TOOL".to_owned()
    } else if local {
        "NANO_ONLY".to_owned()
    } else if !summary.cloud_used && summary.tool_used {
        "TOOL_ONLY".to_owned()
    } else {
        "UNSPECIFIED".to_owned()
    }
}

/// The engines a turn went through, in order: nano, cloud, tool, fallback.
pub open spec fn route_parts(
    stages: Seq<Seq<char>>,
    cloud_used: bool,
    tool_used: bool,
    had_fallback: bool,
) -> Seq<Seq<char>> {
    let a = if used_local_model(stages) {
        seq!["nano"@]
    } else {
        Seq::empty()
    };
    let b = if cloud_used {
        a.push("cloud"@)
    } else {
        a
    };
    let c = if tool_used {
        b.push("tool"@)
    } else {
        b
    };
    if had_fallback {
        c.push("fallback"@)
    } else {
        c
    }
}

/// Those engines joined by " + ", or "none".
pub open spec fn spec_final_route(
    stages: Seq<Seq<char>>,
    cloud_used: bool,
    tool_used: bool,
    had_fallback: bool,
) -> Seq<char> {
    let parts = route_parts(stages, cloud_used, tool_used, had_fallback);
    if parts.len() == 0 {
        "none"@
    } else {
        join(parts, " + "@)
    }
}

pub fn final_route(summary: &TurnTraceSummary) -> (r: String)
    ensures
        r@ == spec_final_route(
            strs_view(summary.model_stages@),
            summary.cloud_used,
            summary.tool_used,
            summary.had_fallback,
        ),
{
    let mut parts: Vec<Vec<char>> = Vec::new();
    if stages_use_local_model(&summary.model_stages) {
        parts.push(chars_of("nano"));
    }
    if summary.cloud_used {
        parts.push(chars_of("cloud"));
    }
    if summary.tool_used {
        parts.push(chars_of("tool"));
    }
    if summary.had_fallback {
        parts.push(chars_of("fallback"));
    }
    assert(seqs_of(parts@) =~= route_parts(
        strs_view(summary.model_stages@),
        summary.cloud_used,
        summary.tool_used,
        summary.had_fallback,
    ));
    if parts.len() == 0 {
        return "none".to_owned();
    }
    let sep = chars_of(" + ");
    let j = join_chars(&parts, &sep);
    string_of(&j)
}

/// Records a model stage on the trace summary, once.
pub fn trace_state_model_stage(summary: &mut TurnTraceSummary, model_stage: &str)
    ensures
        strs_view(final(summary).model_stages@) == with_stage(
            strs_view(old(summary).model_stages@),
            model_stage@,
        ),
        *final(summary) == (TurnTraceSummary { model_stages: final(summary).model_stages, ..*old(summary) }),
{
    if !stages_contain(&summary.model_stages, model_stage) {
        let ghost before = strs_view(summary.model_stages@);
        summary.model_stages.push(model_stage.to_owned());
        assert(strs_view(summary.model_stages@) =~= before.push(model_stage@));
    }
}

/// A payload attached to a trace event, its size counted in UTF-8 bytes.
pub fn trace_payload(
    slot: &str,
    visibility_class: TraceVisibilityClass,
    content_format: &str,
    content_text: &str,
) -> (r: TracePayloadAttachment)
    ensures
        r.slot@ == slot@,
        r.visibility_class == visibility_class,
        r.content_format@ == content_format@,
        r.content_text@ == content_text@,
        r.size_bytes == encode_utf8(content_text@).len(),
{
    TracePayloadAttachment {
        slot: slot.to_owned(),
        visibility_class,
        content_format: content_format.to_owned(),
        content_text: content_text.to_owned(),
        size_bytes: content_text.as_bytes().len(),
    }
}

/// The ids of a turn's messages: the user's, the tool's if any, the assistant's.
pub fn collect_turn_message_ids(
    user_message_id: i64,
    tool_message_id: Option<i64>,
    assistant_message_id: i64,
) -> (r: Vec<i64>)
    ensures
        r@ == (match tool_message_id {
            Some(t) => seq![user_message_id, t, assistant_message_id],
            None => seq![user_message_id, assistant_message_id],
        }),
{
    let mut ids: Vec<i64> = Vec::new();
    ids.push(user_message_id);
    if let Some(t) = tool_message_id {
        ids.push(t);
    }
    ids.push(assistant_message_id);
    assert(ids@ =~= (match tool_message_id {
        Some(t) => seq![user_message_id, t, assistant_message_id],
        None => seq![user_message_id, assistant_message_id],
    }));
    ids
}

/// The user's input as a trace shows it: white space collapsed, at most 96 characters.
pub fn compact_user_summary(value: &str) -> (r: String)
    ensures
        r@ == compact(value@, 96),
{
    compact_text(value, 96)
}


// ---------------------------------------------------------------------------
// Grounded memories
// ---------------------------------------------------------------------------

/// `s.split_once(sep)`: the text before and after the first occurrence.
pub open spec fn split_once(s: Seq<char>, sep: Seq<char>) -> Option<(Seq<char>, Seq<char>)> {
    match find_first(s, sep) {
        Some(i) => Some((s.take(i), s.skip(i + sep.len()))),
        None => None,
    }
}

/// After `prefix`, the trimmed texts before and after the first `separator`.
pub open spec fn spec_split_after_prefix(value: Seq<char>, prefix: Seq<char>, separator: Seq<char>) -> Option<
    (Seq<char>, Seq<char>),
> {
    if starts_with(value, prefix) {
        match split_once(value.skip(prefix.len() as int), separator) {
            Some((left, right)) => Some((trim(left), trim(right))),
            None => None,
        }
    } else {
        None
    }
}

pub fn split_after_prefix(value: &str, prefix: &str, separator: &str) -> (r: Option<(String, String)>)
    ensures
        match (r, spec_split_after_prefix(value@, prefix@, separator@)) {
            (Some((a, b)), Some((x, y))) => a@ == x && b@ == y,
            (None, None) => true,
            _ => false,
        },
{
    let v = chars_of(value);
    let p = chars_of(prefix);
    let sep = chars_of(separator);
    if p.len() > v.len() {
        return None;
    }
    let head = slice_chars(&v, 0, p.len());
    if !crate::text::chars_eq(&head, &p) {
        assert(v@.take(p@.len() as int) =~= head@);
        return None;
    }
    assert(v@.take(p@.len() as int) =~= head@);
    let stripped = slice_chars(&v, p.len(), v.len());
    assert(stripped@ =~= v@.skip(p@.len() as int));
    match find_chars(&stripped, &sep) {
        Some(i) => {
            proof {
                lemma_find_first_is(stripped@, sep@, i as int);
            }
            let left = slice_chars(&stripped, 0, i);
            let right = slice_chars(&stripped, i + sep.len(), stripped.len());
            assert(left@ =~= stripped@.take(i as int));
            assert(right@ =~= stripped@.skip(i + sep@.len()));
            let lt = trim_chars(&left);
            let rt = trim_chars(&right);
            Some((string_of(&lt), string_of(&rt)))
        },
        None => None,
    }
}

/// A fact fragment: trimmed, stripped of surrounding punctuation and quotes,
/// white space collapsed.
pub open spec fn spec_sanitize_fact_fragment(value: Seq<char>) -> Seq<char> {
    collapse_ws(trim_set(trim(value), CharSet::FactPunctuation))
}

pub fn sanitize_fact_fragment(value: &str) -> (r: String)
    ensures
        r@ == spec_sanitize_fact_fragment(value@),
{
    let v = chars_of(value);
    let t = trim_chars(&v);
    let p = trim_set_chars(&t, CharSet::FactPunctuation);
    let c = collapse_ws_chars(&p);
    string_of(&c)
}

/// A key fragment: lower-cased, punctuation read as spaces, words joined by `_`.
pub open spec fn spec_normalize_key(value: Seq<char>) -> Seq<char> {
    join(words(punctuation_to_spaces(spec_to_lowercase(value))), "_"@)
}

pub fn normalize_key(value: &str) -> (r: String)
    ensures
        r@ == spec_normalize_key(value@),
{
    let lower = lowercase_chars(value);
    let mapped = punctuation_to_spaces_chars(&lower);
    let ws = split_words(&mapped);
    let sep = chars_of("_");
    let j = join_chars(&ws, &sep);
    string_of(&j)
}

/// A fact taken from what the user stated about themselves.
#[derive(Debug, Clone)]
pub struct GroundedFactCandidate {
    pub kind: String,
    pub canonical_key: String,
    pub text: String,
}

pub struct FactView {
    pub kind: Seq<char>,
    pub canonical_key: Seq<char>,
    pub text: Seq<char>,
}

impl View for GroundedFactCandidate {
    type V = FactView;

    open spec fn view(&self) -> FactView {
        FactView { kind: self.kind@, canonical_key: self.canonical_key@, text: self.text@ }
    }
}

pub open spec fn facts_view(v: Seq<GroundedFactCandidate>) -> Seq<FactView> {
    v.map_values(|f: GroundedFactCandidate| f@)
}

pub open spec fn fact(kind: Seq<char>, canonical_key: Seq<char>, text: Seq<char>) -> FactView {
    FactView { kind, canonical_key, text }
}

/// "my X is Y": your X is Y.
pub open spec fn profile_fact(lower: Seq<char>) -> Seq<FactView> {
    match spec_split_after_prefix(lower, "my "@, " is "@) {
        Some((subject, value)) => {
            let v = spec_sanitize_fact_fragment(value);
            if trim(subject).len() > 0 && v.len() > 0 {
                let s = spec_sanitize_fact_fragment(subject);
                seq![
                    fact(
                        "profile"@,
                        "profile:"@ + spec_normalize_key(s),
                        "Your "@ + s + " is "@ + v + "."@,
                    ),
                ]
            } else {
                Seq::empty()
            }
        },
        None => Seq::empty(),
    }
}

/// "<opener><preference>": a preference fact keyed by `key_prefix`.
pub open spec fn preference_fact(
    lower: Seq<char>,
    opener: Seq<char>,
    key_prefix: Seq<char>,
    text_prefix: Seq<char>,
) -> Seq<FactView> {
    if starts_with(lower, opener) {
        let p = spec_sanitize_fact_fragment(lower.skip(opener.len() as int));
        if p.len() > 0 {
            seq![fact("preference"@, key_prefix + spec_normalize_key(p), text_prefix + p + "."@)]
        } else {
            Seq::empty()
        }
    } else {
        Seq::empty()
    }
}

/// "call me <name>": the preferred name.
pub open spec fn name_fact(lower: Seq<char>) -> Seq<FactView> {
    if starts_with(lower, "call me "@) {
        let n = spec_sanitize_fact_fragment(lower.skip(8));
        if n.len() > 0 {
            seq![
                fact(
                    "profile"@,
                    "profile:preferred_name"@,
                    "You prefer to be called "@ + n + "."@,
                ),
            ]
        } else {
            Seq::empty()
        }
    } else {
        Seq::empty()
    }
}

/// The facts a user states outright ("my X is Y", "i like ...", "i prefer ...",
/// "call me ..."), read from the lower-cased text; a question states none.
pub open spec fn spec_extract_grounded_memories(user_text: Seq<char>) -> Seq<FactView> {
    let t = trim(user_text);
    if t.len() == 0 || t.last() == '?' {
        Seq::empty()
    } else {
        let lower = spec_to_lowercase(t);
        profile_fact(lower) + preference_fact(lower, "i like "@, "preference:like:"@, "You like "@)
            + preference_fact(lower, "i prefer "@, "preference:prefer:"@, "You prefer "@)
            + name_fact(lower)
    }
}

fn candidate(kind: &str, canonical_key: Vec<char>, text: Vec<char>) -> (r: GroundedFactCandidate)
    ensures
        r@ == fact(kind@, canonical_key@, text@),
{
    GroundedFactCandidate {
        kind: kind.to_owned(),
        canonical_key: string_of(&canonical_key),
        text: string_of(&text),
    }
}

fn strip_prefix_chars(v: &Vec<char>, prefix: &str) -> (r: Option<Vec<char>>)
    ensures
        match r {
            Some(rest) => starts_with(v@, prefix@) && rest@ == v@.skip(prefix@.len() as int),
            None => !starts_with(v@, prefix@),
        },
{
    let p = chars_of(prefix);
    if crate::text::starts_with_chars(v, &p) {
        let rest = slice_chars(v, p.len(), v.len());
        assert(rest@ =~= v@.skip(p@.len() as int));
        Some(rest)
    } else {
        None
    }
}

fn preference_candidates(lower: &Vec<char>, opener: &str, key_prefix: &str, text_prefix: &str) -> (r: Vec<
    GroundedFactCandidate,
>)
    ensures
        facts_view(r@) == preference_fact(lower@, opener@, key_prefix@, text_prefix@),
{
    let mut out: Vec<GroundedFactCandidate> = Vec::new();
    if let Some(rest) = strip_prefix_chars(lower, opener) {
        let rest_s = string_of(&rest);
        let p = sanitize_fact_fragment(rest_s.as_str());
        if p.as_str().as_bytes().len() > 0 {
            let nk = normalize_key(p.as_str());
            let mut key: Vec<char> = Vec::new();
            append_str(&mut key, key_prefix);
            append_str(&mut key, nk.as_str());
            let mut text: Vec<char> = Vec::new();
            append_str(&mut text, text_prefix);
            append_str(&mut text, p.as_str());
            append_str(&mut text, ".");
            out.push(candidate("preference", key, text));
        } else {
            proof {
                vstd::utf8::encode_utf8_decode_utf8(p@);
            }
        }
        proof {
            if p@.len() == 0 {
                assert(encode_utf8(p@) =~= Seq::<u8>::empty());
            }
        }
    }
    assert(facts_view(out@) =~= preference_fact(lower@, opener@, key_prefix@, text_prefix@));
    out
}

fn append_candidates(out: &mut Vec<GroundedFactCandidate>, more: &Vec<GroundedFactCandidate>)
    ensures
        facts_view(final(out)@) == facts_view(old(out)@) + facts_view(more@),
{
    let ghost before = facts_view(out@);
    let mut k: usize = 0;
    while k < more.len()
        invariant
            k <= more.len(),
            facts_view(out@) == before + facts_view(more@).take(k as int),
        decreases more.len() - k,
    {
        let c = more[k].clone_candidate();
        assert(facts_view(more@)[k as int] == more@[k as int]@);
        let ghost prev = facts_view(out@);
        out.push(c);
        assert(facts_view(out@) =~= prev.push(c@));
        k = k + 1;
        assert(facts_view(out@) =~= before + facts_view(more@).take(k as int));
    }
    assert(facts_view(more@).take(more.len() as int) =~= facts_view(more@));
}

fn profile_candidates(lower: &Vec<char>) -> (r: Vec<GroundedFactCandidate>)
    ensures
        facts_view(r@) == profile_fact(lower@),
{
    let mut out: Vec<GroundedFactCandidate> = Vec::new();
    let lower_s = string_of(lower);
    if let Some((subject, value)) = split_after_prefix(lower_s.as_str(), "my ", " is ") {
        let value = sanitize_fact_fragment(value.as_str());
        let subject_blank = crate::text::is_blank_str(subject.as_str());
        proof {
            if value@.len() == 0 {
                assert(encode_utf8(value@) =~= Seq::<u8>::empty());
            }
            vstd::utf8::encode_utf8_decode_utf8(value@);
        }
        if !subject_blank && value.as_str().as_bytes().len() > 0 {
            let subject = sanitize_fact_fragment(subject.as_str());
            let nk = normalize_key(subject.as_str());
            let mut key: Vec<char> = Vec::new();
            append_str(&mut key, "profile:");
            append_str(&mut key, nk.as_str());
            let mut text: Vec<char> = Vec::new();
            append_str(&mut text, "Your ");
            append_str(&mut text, subject.as_str());
            append_str(&mut text, " is ");
            append_str(&mut text, value.as_str());
            append_str(&mut text, ".");
            out.push(candidate("profile", key, text));
        }
    }
    assert(facts_view(out@) =~= profile_fact(lower@));
    out
}

fn name_candidates(lower: &Vec<char>) -> (r: Vec<GroundedFactCandidate>)
    ensures
        facts_view(r@) == name_fact(lower@),
{
    let mut out: Vec<GroundedFactCandidate> = Vec::new();
    if let Some(rest) = strip_prefix_chars(lower, "call me ") {
        proof {
            reveal_strlit("call me ");
        }
        let rest_s = string_of(&rest);
        let name = sanitize_fact_fragment(rest_s.as_str());
        proof {
            if name@.len() == 0 {
                assert(encode_utf8(name@) =~= Seq::<u8>::empty());
            }
            vstd::utf8::encode_utf8_decode_utf8(name@);
        }
        if name.as_str().as_bytes().len() > 0 {
            let key = chars_of("profile:preferred_name");
            let mut text: Vec<char> = Vec::new();
            append_str(&mut text, "You prefer to be called ");
            append_str(&mut text, name.as_str());
            append_str(&mut text, ".");
            out.push(candidate("profile", key, text));
        }
    }
    assert(facts_view(out@) =~= name_fact(lower@));
    out
}

pub fn extract_grounded_memories(user_text: &str) -> (r: Vec<GroundedFactCandidate>)
    ensures
        facts_view(r@) == spec_extract_grounded_memories(user_text@),
{
    let v = chars_of(user_text);
    let t = trim_chars(&v);
    let mut memories: Vec<GroundedFactCandidate> = Vec::new();
    if t.len() == 0 || t[t.len() - 1] == '?' {
        assert(facts_view(memories@) =~= Seq::<FactView>::empty());
        return memories;
    }
    let ts = string_of(&t);
    let lower = lowercase_chars(ts.as_str());
    let profile = profile_candidates(&lower);
    let likes = preference_candidates(&lower, "i like ", "preference:like:", "You like ");
    let prefers = preference_candidates(&lower, "i prefer ", "preference:prefer:", "You prefer ");
    let names = name_candidates(&lower);
    append_candidates(&mut memories, &profile);
    append_candidates(&mut memories, &likes);
    append_candidates(&mut memories, &prefers);
    append_candidates(&mut memories, &names);
    assert(facts_view(memories@) =~= spec_extract_grounded_memories(user_text@));
    memories
}

impl GroundedFactCandidate {
    /// A field-for-field copy.
    pub fn clone_candidate(&self) -> (r: GroundedFactCandidate)
        ensures
            r@ == self@,
    {
        GroundedFactCandidate {
            kind: self.kind.clone(),
            canonical_key: self.canonical_key.clone(),
            text: self.text.clone(),
        }
    }
}

// ---------------------------------------------------------------------------
// Streaming chunks
// ---------------------------------------------------------------------------

pub open spec fn byte_len(s: Seq<char>) -> int {
    encode_utf8(s).len() as int
}

/// One word added to the chunks: where the current chunk is not empty and the
/// word and a space would take it past `max` bytes, the trimmed chunk is closed
/// first; the word and a space then join the current chunk.
pub open spec fn chunk_step(
    state: (Seq<Seq<char>>, Seq<char>),
    word: Seq<char>,
    max: usize,
) -> (Seq<Seq<char>>, Seq<char>) {
    let (chunks, current) = state;
    let closes = byte_len(current) + byte_len(word) + 1 > max && current.len() > 0;
    let chunks2 = if closes {
        chunks.push(trim(current))
    } else {
        chunks
    };
    let current2 = if closes {
        Seq::empty()
    } else {
        current
    };
    (chunks2, current2 + word + seq![' '])
}

pub open spec fn chunk_fold(ws: Seq<Seq<char>>, max: usize) -> (Seq<Seq<char>>, Seq<char>)
    decreases ws.len(),
{
    if ws.len() == 0 {
        (Seq::empty(), Seq::empty())
    } else {
        chunk_step(chunk_fold(ws.drop_last(), max), ws.last(), max)
    }
}

/// The text's words packed greedily into chunks of about `max` bytes; a text
/// without words but not empty is one chunk as it is.
pub open spec fn spec_chunk_text(text: Seq<char>, max: usize) -> Seq<Seq<char>> {
    let (chunks, current) = chunk_fold(words(text), max);
    let all = if trim(current).len() > 0 {
        chunks.push(trim(current))
    } else {
        chunks
    };
    if all.len() == 0 && text.len() > 0 {
        seq![text]
    } else {
        all
    }
}

pub fn chunk_text(text: &str, max_chunk_size: usize) -> (r: Vec<String>)
    ensures
        strs_view(r@) == spec_chunk_text(text@, max_chunk_size),
{
    let v = chars_of(text);
    let ws = split_words(&v);
    let ghost all_words = words(text@);
    let mut chunks: Vec<Vec<char>> = Vec::new();
    let mut current: Vec<char> = Vec::new();
    let mut i: usize = 0;
    while i < ws.len()
        invariant
            i <= ws.len(),
            seqs_of(ws@) == all_words,
            (seqs_of(chunks@), current@) == chunk_fold(all_words.take(i as int), max_chunk_size),
        decreases ws.len() - i,
    {
        let word = &ws[i];
        assert(all_words[i as int] == word@);
        assert(all_words.take(i + 1).drop_last() =~= all_words.take(i as int));
        assert(all_words.take(i + 1).last() == word@);
        let current_len = crate::prompt_translator::utf8_len_of(&current);
        let word_len = crate::prompt_translator::utf8_len_of(word);
        let ghost before_chunks = seqs_of(chunks@);
        if (current_len as u128) + (word_len as u128) + 1 > (max_chunk_size as u128)
            && current.len() > 0 {
            let t = trim_chars(&current);
            chunks.push(t);
            assert(seqs_of(chunks@) =~= before_chunks.push(trim(current@)));
            current = Vec::new();
        }
        append_chars(&mut current, word);
        current.push(' ');
        i = i + 1;
    }
    assert(all_words.take(ws.len() as int) =~= all_words);
    if !crate::text::is_blank(&current) {
        let t = trim_chars(&current);
        let ghost before_chunks = seqs_of(chunks@);
        chunks.push(t);
        assert(seqs_of(chunks@) =~= before_chunks.push(trim(current@)));
    }
    if chunks.len() == 0 && v.len() > 0 {
        let mut only: Vec<String> = Vec::new();
        only.push(text.to_owned());
        assert(strs_view(only@) =~= seq![text@]);
        return only;
    }
    crate::text::strings_of_parts(&chunks)
}


/// The durable memories a policy lets a beat see: all of them where it includes
/// durable memory, none otherwise.
pub fn select_memories_from_slice(semantic_memories: &[PromptMemory], policy: ContextPolicy) -> (r: Vec<
    PromptMemory,
>)
    ensures
        r@.len() == (if policy.spec_includes_durable() {
            semantic_memories@.len()
        } else {
            0
        }),
        forall|i: int|
            0 <= i < r@.len() ==> (#[trigger] r@[i]).kind@ == semantic_memories@[i].kind@
                && r@[i].text@ == semantic_memories@[i].text@,
{
    let mut r: Vec<PromptMemory> = Vec::new();
    match policy {
        ContextPolicy::NoContext | ContextPolicy::TranscriptOnly => r,
        ContextPolicy::DurableOnly | ContextPolicy::TranscriptPlusDurable => {
            let mut i: usize = 0;
            while i < semantic_memories.len()
                invariant
                    i <= semantic_memories.len(),
                    r@.len() == i,
                    forall|j: int|
                        0 <= j < i ==> (#[trigger] r@[j]).kind@ == semantic_memories@[j].kind@
                            && r@[j].text@ == semantic_memories@[j].text@,
                decreases semantic_memories.len() - i,
            {
                r.push(
                    PromptMemory {
                        kind: semantic_memories[i].kind.clone(),
                        text: semantic_memories[i].text.clone(),
                    },
                );
                i = i + 1;
            }
            r
        },
    }
}

/// Why a plain-text stage's output was refused.
#[derive(Debug, Clone, Copy, PartialEq, Eq, Structural)]
pub enum PlainTextError {
    /// The output was an internal payload.
    InternalPayload,
    /// The output was empty.
    EmptyResponse,
    /// The output was an envelope carrying a tool request.
    ToolRequestEnvelope,
    /// The output was an envelope with an empty reply.
    EmptyAssistantReply,
}

impl PlainTextError {
    pub open spec fn spec_message(self) -> Seq<char> {
        match self {
            PlainTextError::InternalPayload => "plain-text stage returned an internal payload"@,
            PlainTextError::EmptyResponse => "plain-text stage returned an empty response"@,
            PlainTextError::ToolRequestEnvelope => "plain-text stage returned a tool request envelope"@,
            PlainTextError::EmptyAssistantReply => "plain-text stage returned an empty assistant reply"@,
        }
    }

    pub fn message(self) -> (r: &'static str)
        ensures
            r@ == self.spec_message(),
    {
        match self {
            PlainTextError::InternalPayload => "plain-text stage returned an internal payload",
            PlainTextError::EmptyResponse => "plain-text stage returned an empty response",
            PlainTextError::ToolRequestEnvelope => "plain-text stage returned a tool request envelope",
            PlainTextError::EmptyAssistantReply => "plain-text stage returned an empty assistant reply",
        }
    }
}

/// What a plain-text stage's parsed output yields: its trimmed reply, unless it
/// was an internal payload, carried a tool request, or was empty.
pub open spec fn spec_normalize_plain_text_output(
    kind: ParsedTurnOutputKind,
    assistant_reply: Seq<char>,
    has_tool_request: bool,
) -> Result<Seq<char>, PlainTextError> {
    match kind {
        ParsedTurnOutputKind::SuppressedInternalPayload => Err(PlainTextError::InternalPayload),
        ParsedTurnOutputKind::PlainTextFallback => if trim(assistant_reply).len() == 0 {
            Err(PlainTextError::EmptyResponse)
        } else {
            Ok(trim(assistant_reply))
        },
        ParsedTurnOutputKind::Structured => if has_tool_request {
            Err(PlainTextError::ToolRequestEnvelope)
        } else if trim(assistant_reply).len() == 0 {
            Err(PlainTextError::EmptyAssistantReply)
        } else {
            Ok(trim(assistant_reply))
        },
    }
}

pub fn normalize_plain_text_output(
    kind: ParsedTurnOutputKind,
    assistant_reply: &str,
    has_tool_request: bool,
) -> (r: Result<String, PlainTextError>)
    ensures
        match (r, spec_normalize_plain_text_output(kind, assistant_reply@, has_tool_request)) {
            (Ok(a), Ok(b)) => a@ == b,
            (Err(e), Err(f)) => e == f,
            _ => false,
        },
{
    let v = chars_of(assistant_reply);
    let t = trim_chars(&v);
    match kind {
        ParsedTurnOutputKind::SuppressedInternalPayload => Err(PlainTextError::InternalPayload),
        ParsedTurnOutputKind::PlainTextFallback => if t.len() == 0 {
            Err(PlainTextError::EmptyResponse)
        } else {
            Ok(string_of(&t))
        },
        ParsedTurnOutputKind::Structured => if has_tool_request {
            Err(PlainTextError::ToolRequestEnvelope)
        } else if t.len() == 0 {
            Err(PlainTextError::EmptyAssistantReply)
        } else {
            Ok(string_of(&t))
        },
    }
}


/// The stages after recording one: unchanged where it is already there,
/// otherwise with it added at the end.
pub open spec fn with_stage(stages: Seq<Seq<char>>, stage: Seq<char>) -> Seq<Seq<char>> {
    if stages.contains(stage) {
        stages
    } else {
        stages.push(stage)
    }
}

/// Recording a stage twice records it once.
pub proof fn lemma_stage_recorded_once(stages: Seq<Seq<char>>, stage: Seq<char>)
    ensures
        with_stage(with_stage(stages, stage), stage) == with_stage(stages, stage),
        with_stage(stages, stage).contains(stage),
{
    if !stages.contains(stage) {
        assert(stages.push(stage)[stages.len() as int] == stage);
    }
}

/// A turn that went through no engine reports an unspecified delivery.
pub proof fn lemma_no_route_is_unspecified(
    stages: Seq<Seq<char>>,
    cloud_used: bool,
    tool_used: bool,
    had_fallback: bool,
)
    ensures
        spec_final_route(stages, cloud_used, tool_used, had_fallback) == "none"@
            <== route_parts(stages, cloud_used, tool_used, had_fallback).len() == 0,
        route_parts(stages, cloud_used, tool_used, had_fallback).len() == 0 ==> spec_delivery_mode(
            stages,
            cloud_used,
            tool_used,
            had_fallback,
        ) == "UNSPECIFIED"@,
{
}

} // verus!
