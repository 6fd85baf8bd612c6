//! The records of the memory layers.
use vstd::prelude::*;

use crate::conversation::ContextLevel;
use crate::logging::TurnTraceSummary;

verus! {

/// A request for the most recent transcript messages.
#[derive(Debug, Clone, Copy)]
pub struct TranscriptSliceQuery {
    pub context_level: ContextLevel,
    pub exclude_message_id: Option<i64>,
    pub limit_override: Option<usize>,
}

/// A request for durable memories that match a text.
#[derive(Debug, Clone)]
pub struct DurableRecallQuery {
    pub query_text: String,
    pub context_level: ContextLevel,
    pub limit: Option<usize>,
}

#[derive(Debug, Clone)]
pub struct DurableMemoryCounts {
    pub active_count: i64,
    pub superseded_count: i64,
    pub all_count: i64,
}

/// How present a working thread is: the focused one, an active one, or one
/// that is cooling off.
#[derive(Debug, Clone, Copy, PartialEq, Eq, Structural)]
pub enum WorkingThreadStatus {
    Focused,
    Active,
    Cooling,
}

#[derive(Debug, Clone)]
pub struct EntityAnchor {
    pub key: String,
    pub label: String,
    pub kind: String,
    pub thread_key: String,
    pub last_seen_turn_id: String,
    pub stale_turns: u32,
}

#[derive(Debug, Clone)]
pub struct OpenLoop {
    pub key: String,
    pub label: String,
    pub thread_key: String,
    pub opened_turn_id: String,
    pub last_touched_turn_id: String,
    pub expires_after_turns: u32,
    pub stale_turns: u32,
}

#[derive(Debug, Clone)]
pub struct InteractionConstraint {
    pub key: String,
    pub text: String,
    pub source: String,
    pub last_confirmed_turn_id: String,
    pub expires_after_turns: u32,
    pub stale_turns: u32,
}

#[derive(Debug, Clone)]
pub struct WorkingToolOutcome {
    pub tool_name: String,
    pub action: String,
    pub summary: String,
    pub turn_id: String,
    pub created_at: String,
    pub thread_key: String,
    pub stale_turns: u32,
}

#[derive(Debug, Clone)]
pub struct WorkingMemorySourceRefs {
    pub message_ids: Vec<i64>,
    pub durable_memory_ids: Vec<i64>,
}

/// One thread of the conversation that working memory follows.
#[derive(Debug, Clone)]
pub struct WorkingThread {
    pub key: String,
    pub status: WorkingThreadStatus,
    pub topic_label: String,
    pub synopsis: String,
    pub last_touched_turn_id: String,
    pub last_touched_at: String,
    pub message_refs: Vec<i64>,
    pub durable_memory_ids: Vec<i64>,
    pub stale_turns: u32,
}

/// What working memory holds between turns.
#[derive(Debug, Clone)]
pub struct WorkingMemorySnapshot {
    pub turn_id: String,
    pub created_at: String,
    pub version: i64,
    pub focus_thread_key: Option<String>,
    pub threads: Vec<WorkingThread>,
    pub entity_anchors: Vec<EntityAnchor>,
    pub open_loops: Vec<OpenLoop>,
    pub interaction_constraints: Vec<InteractionConstraint>,
    pub recent_tool_outcomes: Vec<WorkingToolOutcome>,
    pub source_refs: WorkingMemorySourceRefs,
}

pub struct WorkingThreadView {
    pub key: Seq<char>,
    pub status: WorkingThreadStatus,
    pub topic_label: Seq<char>,
    pub synopsis: Seq<char>,
    pub last_touched_turn_id: Seq<char>,
    pub last_touched_at: Seq<char>,
    pub message_refs: Seq<i64>,
    pub durable_memory_ids: Seq<i64>,
    pub stale_turns: u32,
}

impl View for WorkingThread {
    type V = WorkingThreadView;

    open spec fn view(&self) -> WorkingThreadView {
        WorkingThreadView {
            key: self.key@,
            status: self.status,
            topic_label: self.topic_label@,
            synopsis: self.synopsis@,
            last_touched_turn_id: self.last_touched_turn_id@,
            last_touched_at: self.last_touched_at@,
            message_refs: self.message_refs@,
            durable_memory_ids: self.durable_memory_ids@,
            stale_turns: self.stale_turns,
        }
    }
}

pub struct EntityAnchorView {
    pub key: Seq<char>,
    pub label: Seq<char>,
    pub kind: Seq<char>,
    pub thread_key: Seq<char>,
    pub last_seen_turn_id: Seq<char>,
    pub stale_turns: u32,
}

impl View for EntityAnchor {
    type V = EntityAnchorView;

    open spec fn view(&self) -> EntityAnchorView {
        EntityAnchorView {
            key: self.key@,
            label: self.label@,
            kind: self.kind@,
            thread_key: self.thread_key@,
            last_seen_turn_id: self.last_seen_turn_id@,
            stale_turns: self.stale_turns,
        }
    }
}

pub struct OpenLoopView {
    pub key: Seq<char>,
    pub label: Seq<char>,
    pub thread_key: Seq<char>,
    pub opened_turn_id: Seq<char>,
    pub last_touched_turn_id: Seq<char>,
    pub expires_after_turns: u32,
    pub stale_turns: u32,
}

impl View for OpenLoop {
    type V = OpenLoopView;

    open spec fn view(&self) -> OpenLoopView {
        OpenLoopView {
            key: self.key@,
            label: self.label@,
            thread_key: self.thread_key@,
            opened_turn_id: self.opened_turn_id@,
            last_touched_turn_id: self.last_touched_turn_id@,
            expires_after_turns: self.expires_after_turns,
            stale_turns: self.stale_turns,
        }
    }
}

pub struct InteractionConstraintView {
    pub key: Seq<char>,
    pub text: Seq<char>,
    pub source: Seq<char>,
    pub last_confirmed_turn_id: Seq<char>,
    pub expires_after_turns: u32,
    pub stale_turns: u32,
}

impl View for InteractionConstraint {
    type V = InteractionConstraintView;

    open spec fn view(&self) -> InteractionConstraintView {
        InteractionConstraintView {
            key: self.key@,
            text: self.text@,
            source: self.source@,
            last_confirmed_turn_id: self.last_confirmed_turn_id@,
            expires_after_turns: self.expires_after_turns,
            stale_turns: self.stale_turns,
        }
    }
}

pub struct WorkingToolOutcomeView {
    pub tool_name: Seq<char>,
    pub action: Seq<char>,
    pub summary: Seq<char>,
    pub turn_id: Seq<char>,
    pub created_at: Seq<char>,
    pub thread_key: Seq<char>,
    pub stale_turns: u32,
}

impl View for WorkingToolOutcome {
    type V = WorkingToolOutcomeView;

    open spec fn view(&self) -> WorkingToolOutcomeView {
        WorkingToolOutcomeView {
            tool_name: self.tool_name@,
            action: self.action@,
            summary: self.summary@,
            turn_id: self.turn_id@,
            created_at: self.created_at@,
            thread_key: self.thread_key@,
            stale_turns: self.stale_turns,
        }
    }
}

pub struct SourceRefsView {
    pub message_ids: Seq<i64>,
    pub durable_memory_ids: Seq<i64>,
}

impl View for WorkingMemorySourceRefs {
    type V = SourceRefsView;

    open spec fn view(&self) -> SourceRefsView {
        SourceRefsView {
            message_ids: self.message_ids@,
            durable_memory_ids: self.durable_memory_ids@,
        }
    }
}

pub struct SnapshotView {
    pub turn_id: Seq<char>,
    pub created_at: Seq<char>,
    pub version: i64,
    pub focus_thread_key: Option<Seq<char>>,
    pub threads: Seq<WorkingThreadView>,
    pub entity_anchors: Seq<EntityAnchorView>,
    pub open_loops: Seq<OpenLoopView>,
    pub interaction_constraints: Seq<InteractionConstraintView>,
    pub recent_tool_outcomes: Seq<WorkingToolOutcomeView>,
    pub source_refs: SourceRefsView,
}

pub open spec fn opt_text(s: Option<String>) -> Option<Seq<char>> {
    match s {
        Some(v) => Some(v@),
        None => None,
    }
}

impl View for WorkingMemorySnapshot {
    type V = SnapshotView;

    open spec fn view(&self) -> SnapshotView {
        SnapshotView {
            turn_id: self.turn_id@,
            created_at: self.created_at@,
            version: self.version,
            focus_thread_key: opt_text(self.focus_thread_key),
            threads: self.threads@.map_values(|t: WorkingThread| t@),
            entity_anchors: self.entity_anchors@.map_values(|a: EntityAnchor| a@),
            open_loops: self.open_loops@.map_values(|l: OpenLoop| l@),
            interaction_constraints: self.interaction_constraints@.map_values(
                |c: InteractionConstraint| c@,
            ),
            recent_tool_outcomes: self.recent_tool_outcomes@.map_values(|o: WorkingToolOutcome| o@),
            source_refs: self.source_refs@,
        }
    }
}

/// What a finished turn hands to working memory: the turn's texts and
/// message ids, and what recall selected for it (its message and memory ids,
/// the references it used and the snapshot it worked from).
#[derive(Debug, Clone)]
pub struct RefreshWorkingMemoryRequest {
    pub turn_id: String,
    pub user_text: String,
    pub assistant_visible_text: String,
    pub tool_summary: Option<String>,
    pub current_turn_message_ids: Vec<i64>,
    pub selected_message_ids: Vec<i64>,
    pub selected_memory_ids: Vec<i64>,
    pub refs_used: WorkingMemorySourceRefs,
    pub recalled_snapshot: WorkingMemorySnapshot,
    pub previous_snapshot: Option<WorkingMemorySnapshot>,
}

#[derive(Debug, Clone)]
pub struct HydrateWorkingMemoryRequest {
    pub turn_id: String,
    pub user_text: String,
    pub context_level: ContextLevel,
    pub exclude_message_id: Option<i64>,
    pub latest_turn_summary: Option<TurnTraceSummary>,
}

#[derive(Debug, Clone)]
pub struct ThreadBridge {
    pub thread_key: String,
    pub synopsis: String,
    pub status: WorkingThreadStatus,
}

/// How a turn relates to the conversation's threads.
#[derive(Debug, Clone, Copy, PartialEq, Eq, Structural)]
pub enum ContinuityMode {
    OnThread,
    Pivot,
    Return,
    OpenLoop,
    Ambiguous,
}

#[derive(Debug, Clone)]
pub struct RecallStats {
    pub latency_ms: i64,
    pub recent_count: usize,
    pub semantic_count: usize,
    pub working_thread_count: usize,
}

#[derive(Debug, Clone)]
pub struct RecallBudget {
    pub max_recent_messages: Option<usize>,
    pub max_durable_memories: Option<usize>,
    pub include_cold_candidates: bool,
}

} // verus!
