//! Memory: the plain records that the stores keep, and the rules that derive
//! threads, anchors and keys from what the user says.
pub mod observability;
pub mod recall;
pub mod types;
pub mod vector;
pub mod working;

pub use types::{
    ContinuityMode, DurableMemoryCounts, DurableRecallQuery, EntityAnchor,
    HydrateWorkingMemoryRequest, InteractionConstraint, OpenLoop, RecallBudget, RecallStats,
    ThreadBridge, TranscriptSliceQuery, WorkingMemorySourceRefs, WorkingThreadStatus,
    WorkingToolOutcome,
};
pub use vector::{normalize_memory_text, stable_hash};
