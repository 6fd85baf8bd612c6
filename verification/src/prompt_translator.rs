//! Prompt modes and their configuration, the translator that compiles a turn
//! into a nano prompt or a cloud request, and the text rules that keep internal
//! payloads out of what the user sees.
use vstd::prelude::*;

use vstd::string::StringSliceAdditionalSpecFns;
use vstd::utf8::encode_utf8;

use crate::conversation::{ChatMessage, ContextLevel, InputSource};
use crate::model::{message, MessageView, ModelMessage, ModelRequest};
use crate::text::{
    append_chars, append_str, chars_eq_str, chars_of, collapse_ws, collapse_ws_chars, compact,
    compact_chars, compact_text, in_set, is_blank, is_blank_str, join, join_chars,
    keep_word_chars, keep_word_chars_chars, lowercase_chars, replace_all, replace_all_chars,
    replace_char, replace_char_chars, seqs_of, slice_chars, spec_to_lowercase, starts_with,
    starts_with_chars, string_of, trim, trim_chars, trim_start_set, trim_start_set_chars,
    CharSet, trim_set, trim_set_chars, contains, contains_str, ends_with, ends_with_char,
    starts_with_char, starts_with_str, find_chars, rfind_chars, first_occurrence,
    last_occurrence, occurs_at, copy_chars, strs_view, find_first, lemma_find_first_is,
    strings_of_parts, lemma_trim_empty, lemma_trim_unchanged, is_ws,
};
use crate::conversation::lemma_trim_idempotent;

verus! {

// ---------------------------------------------------------------------------
// Modes and formats
// ---------------------------------------------------------------------------

/// The kinds of prompt the assistant compiles.
#[derive(Debug, Clone, Copy, PartialEq, Eq, Structural)]
pub enum PromptMode {
    FirstBeat,
    NanoReply,
    CloudReasoning,
    FollowupReasoning,
    MemoryBackedRecall,
    SummaryBridge,
    AmbientLine,
    ToolStatusExplanation,
    ErrorExplanation,
}

impl PromptMode {
    pub open spec fn spec_name(self) -> Seq<char> {
        match self {
            PromptMode::FirstBeat => "first_beat"@,
            PromptMode::NanoReply => "nano_reply"@,
            PromptMode::CloudReasoning => "cloud_reasoning"@,
            PromptMode::FollowupReasoning => "followup_reasoning"@,
            PromptMode::MemoryBackedRecall => "memory_backed_recall"@,
            PromptMode::SummaryBridge => "summary_bridge"@,
            PromptMode::AmbientLine => "ambient_line"@,
            PromptMode::ToolStatusExplanation => "tool_status_explanation"@,
            PromptMode::ErrorExplanation => "error_explanation"@,
        }
    }

    pub fn as_str(self) -> (r: &'static str)
        ensures
            r@ == self.spec_name(),
    {
        match self {
            PromptMode::FirstBeat => "first_beat",
            PromptMode::NanoReply => "nano_reply",
            PromptMode::CloudReasoning => "cloud_reasoning",
            PromptMode::FollowupReasoning => "followup_reasoning",
            PromptMode::MemoryBackedRecall => "memory_backed_recall",
            PromptMode::SummaryBridge => "summary_bridge",
            PromptMode::AmbientLine => "ambient_line",
            PromptMode::ToolStatusExplanation => "tool_status_explanation",
            PromptMode::ErrorExplanation => "error_explanation",
        }
    }
}

/// What a mode's output looks like: plain text, or the internal JSON envelope.
#[derive(Debug, Clone, Copy, PartialEq, Eq, Structural)]
pub enum PromptOutputFormat {
    PlainText,
    JsonEnvelope,
}

/// The output a planned beat expects.
#[derive(Debug, Clone, Copy, PartialEq, Eq, Structural)]
pub enum PromptOutputContract {
    PlainText,
    JsonEnvelope,
}

impl PromptOutputContract {
    pub open spec fn spec_format(self) -> PromptOutputFormat {
        match self {
            PromptOutputContract::PlainText => PromptOutputFormat::PlainText,
            PromptOutputContract::JsonEnvelope => PromptOutputFormat::JsonEnvelope,
        }
    }

    pub fn as_format(self) -> (r: PromptOutputFormat)
        ensures
            r == self.spec_format(),
    {
        match self {
            PromptOutputContract::PlainText => PromptOutputFormat::PlainText,
            PromptOutputContract::JsonEnvelope => PromptOutputFormat::JsonEnvelope,
        }
    }
}

/// How a model's raw output was read.
#[derive(Debug, Clone, Copy, PartialEq, Eq, Structural)]
pub enum ParsedTurnOutputKind {
    Structured,
    PlainTextFallback,
    SuppressedInternalPayload,
}

/// What a turn's tone may include.
#[derive(Debug, Clone, Copy, PartialEq, Eq, Structural)]
pub struct BehaviorPolicy {
    pub allow_ambient: bool,
    pub allow_playfulness: bool,
    pub allow_humor: bool,
    pub prefer_silence: bool,
    pub allow_initiative: bool,
}

impl BehaviorPolicy {
    /// A direct turn: playful, but no humour, no ambient lines, no initiative.
    pub fn direct_turn() -> (r: Self)
        ensures
            r == (BehaviorPolicy {
                allow_ambient: false,
                allow_playfulness: true,
                allow_humor: false,
                prefer_silence: false,
                allow_initiative: false,
            }),
    {
        BehaviorPolicy {
            allow_ambient: false,
            allow_playfulness: true,
            allow_humor: false,
            prefer_silence: false,
            allow_initiative: false,
        }
    }

    /// An ambient turn: everything is allowed but silence is not preferred.
    pub fn ambient_turn() -> (r: Self)
        ensures
            r == (BehaviorPolicy {
                allow_ambient: true,
                allow_playfulness: true,
                allow_humor: true,
                prefer_silence: false,
                allow_initiative: true,
            }),
    {
        BehaviorPolicy {
            allow_ambient: true,
            allow_playfulness: true,
            allow_humor: true,
            prefer_silence: false,
            allow_initiative: true,
        }
    }
}

// ---------------------------------------------------------------------------
// Configuration
// ---------------------------------------------------------------------------

pub const FIRST_BEAT_INSTRUCTION: &'static str = "Return only the first visible conversational beat. Do not answer fully. Do not mention models.";

pub const NANO_REPLY_INSTRUCTION: &'static str = "Reply directly in plain text. Stay conversational, user-facing, and compact. Do not return JSON.";

pub const CLOUD_REASONING_INSTRUCTION: &'static str = "Continue the answer after the first beat. Do not restart with a greeting, acknowledgment, or recap. Return strict JSON with assistant_reply and tool_request only. assistant_reply must stay user-facing.";

pub const FOLLOWUP_REASONING_INSTRUCTION: &'static str = "Continue the answer after the first beat. Do not restart with a greeting, acknowledgment, or recap. Return strict JSON with assistant_reply, tool_request, and memory_candidates.";

pub const MEMORY_BACKED_RECALL_INSTRUCTION: &'static str = "Answer the user from the selected memory facts only. Keep it short, concrete, and conversational. If the facts are insufficient, say so briefly instead of inventing details.";

pub const SUMMARY_BRIDGE_INSTRUCTION: &'static str = "Turn the source answer into one short user-facing continuation that preserves the facts, sounds like the same assistant, and does not mention internal systems or models.";

pub const AMBIENT_LINE_INSTRUCTION: &'static str = "Return one calm ambient line only when the event materially helps the user. Do not mention models.";

pub const TOOL_STATUS_INSTRUCTION: &'static str = "Explain the current tool status in one short user-friendly line.";

pub const ERROR_EXPLANATION_INSTRUCTION: &'static str = "Explain the issue calmly in one short user-friendly line without internal jargon.";

pub const DEFAULT_ASSISTANT_IDENTITY: &'static str = "You are Baby Gervaise, a continuous local-first computer partner.";

pub const DEFAULT_CONTINUITY_INSTRUCTION: &'static str = "Stay inside one continuing conversation. Never mention threads, sessions, or starting over.";

pub const DEFAULT_MEMORY_PREAMBLE: &'static str = "Use retrieved context only when it materially improves continuity or factual accuracy.";

pub const DEFAULT_TOOL_INSTRUCTIONS: &'static str = "If a deterministic tool is required, return tool_request JSON using tool, action, and arguments. Supported tools are spotify and hue. Never claim a tool executed when it did not.";

pub const DEFAULT_RESPONSE_CONTRACT: &'static str = "Return strict JSON with assistant_reply and tool_request. This envelope is internal system output and must not leak into visible chat.";

/// How one prompt mode is compiled.
#[derive(Debug, Clone)]
pub struct PromptModeConfig {
    pub instruction: String,
    pub max_context_messages: usize,
    pub max_memory_items: usize,
    pub max_words: Option<usize>,
    pub max_output_tokens: Option<u32>,
    pub output_format: PromptOutputFormat,
}

pub struct ModeConfigView {
    pub instruction: Seq<char>,
    pub max_context_messages: usize,
    pub max_memory_items: usize,
    pub max_words: Option<usize>,
    pub max_output_tokens: Option<u32>,
    pub output_format: PromptOutputFormat,
}

impl View for PromptModeConfig {
    type V = ModeConfigView;

    open spec fn view(&self) -> ModeConfigView {
        ModeConfigView {
            instruction: self.instruction@,
            max_context_messages: self.max_context_messages,
            max_memory_items: self.max_memory_items,
            max_words: self.max_words,
            max_output_tokens: self.max_output_tokens,
            output_format: self.output_format,
        }
    }
}

pub open spec fn mode_view(
    instruction: Seq<char>,
    max_context_messages: usize,
    max_memory_items: usize,
    max_words: Option<usize>,
    max_output_tokens: Option<u32>,
    output_format: PromptOutputFormat,
) -> ModeConfigView {
    ModeConfigView {
        instruction,
        max_context_messages,
        max_memory_items,
        max_words,
        max_output_tokens,
        output_format,
    }
}

/// The built-in configuration of each mode.
pub open spec fn spec_for_mode(mode: PromptMode) -> ModeConfigView {
    match mode {
        PromptMode::FirstBeat => mode_view(
            FIRST_BEAT_INSTRUCTION@,
            4,
            0,
            Some(14),
            Some(48),
            PromptOutputFormat::PlainText,
        ),
        PromptMode::NanoReply => mode_view(
            NANO_REPLY_INSTRUCTION@,
            6,
            3,
            Some(60),
            Some(128),
            PromptOutputFormat::PlainText,
        ),
        PromptMode::CloudReasoning => mode_view(
            CLOUD_REASONING_INSTRUCTION@,
            8,
            4,
            None,
            Some(192),
            PromptOutputFormat::JsonEnvelope,
        ),
        PromptMode::FollowupReasoning => mode_view(
            FOLLOWUP_REASONING_INSTRUCTION@,
            8,
            4,
            None,
            Some(192),
            PromptOutputFormat::JsonEnvelope,
        ),
        PromptMode::MemoryBackedRecall => mode_view(
            MEMORY_BACKED_RECALL_INSTRUCTION@,
            4,
            3,
            Some(36),
            Some(96),
            PromptOutputFormat::PlainText,
        ),
        PromptMode::SummaryBridge => mode_view(
            SUMMARY_BRIDGE_INSTRUCTION@,
            4,
            3,
            Some(38),
            Some(96),
            PromptOutputFormat::PlainText,
        ),
        PromptMode::AmbientLine => mode_view(
            AMBIENT_LINE_INSTRUCTION@,
            4,
            0,
            Some(16),
            Some(40),
            PromptOutputFormat::PlainText,
        ),
        PromptMode::ToolStatusExplanation => mode_view(
            TOOL_STATUS_INSTRUCTION@,
            3,
            0,
            Some(22),
            Some(72),
            PromptOutputFormat::PlainText,
        ),
        PromptMode::ErrorExplanation => mode_view(
            ERROR_EXPLANATION_INSTRUCTION@,
            3,
            0,
            Some(22),
            Some(72),
            PromptOutputFormat::PlainText,
        ),
    }
}

/// A mode's configuration laid over the built-in one: a blank instruction and a
/// zero count take the built-in value, a missing limit the built-in limit, and a
/// mode whose built-in output is the JSON envelope keeps it.
pub open spec fn spec_merge_defaults(mode: PromptMode, configured: ModeConfigView) -> ModeConfigView {
    let defaults = spec_for_mode(mode);
    ModeConfigView {
        instruction: if trim(configured.instruction).len() == 0 {
            defaults.instruction
        } else {
            configured.instruction
        },
        max_context_messages: if configured.max_context_messages == 0 {
            defaults.max_context_messages
        } else {
            configured.max_context_messages
        },
        max_memory_items: if configured.max_memory_items == 0 {
            defaults.max_memory_items
        } else {
            configured.max_memory_items
        },
        max_words: if configured.max_words is Some {
            configured.max_words
        } else {
            defaults.max_words
        },
        max_output_tokens: if configured.max_output_tokens is Some {
            configured.max_output_tokens
        } else {
            defaults.max_output_tokens
        },
        output_format: if configured.output_format == PromptOutputFormat::PlainText
            && defaults.output_format == PromptOutputFormat::JsonEnvelope {
            defaults.output_format
        } else {
            configured.output_format
        },
    }
}

fn mode_config_value(
    instruction: &str,
    max_context_messages: usize,
    max_memory_items: usize,
    max_words: Option<usize>,
    max_output_tokens: Option<u32>,
    output_format: PromptOutputFormat,
) -> (r: PromptModeConfig)
    ensures
        r@ == mode_view(
            instruction@,
            max_context_messages,
            max_memory_items,
            max_words,
            max_output_tokens,
            output_format,
        ),
{
    PromptModeConfig {
        instruction: instruction.to_owned(),
        max_context_messages,
        max_memory_items,
        max_words,
        max_output_tokens,
        output_format,
    }
}

impl PromptModeConfig {
    /// The built-in configuration of `mode`.
    pub fn for_mode(mode: PromptMode) -> (r: Self)
        ensures
            r@ == spec_for_mode(mode),
    {
        match mode {
            PromptMode::FirstBeat => mode_config_value(
                FIRST_BEAT_INSTRUCTION,
                4,
                0,
                Some(14),
                Some(48),
                PromptOutputFormat::PlainText,
            ),
            PromptMode::NanoReply => mode_config_value(
                NANO_REPLY_INSTRUCTION,
                6,
                3,
                Some(60),
                Some(128),
                PromptOutputFormat::PlainText,
            ),
            PromptMode::CloudReasoning => mode_config_value(
                CLOUD_REASONING_INSTRUCTION,
                8,
                4,
                None,
                Some(192),
                PromptOutputFormat::JsonEnvelope,
            ),
            PromptMode::FollowupReasoning => mode_config_value(
                FOLLOWUP_REASONING_INSTRUCTION,
                8,
                4,
                None,
                Some(192),
                PromptOutputFormat::JsonEnvelope,
            ),
            PromptMode::MemoryBackedRecall => mode_config_value(
                MEMORY_BACKED_RECALL_INSTRUCTION,
                4,
                3,
                Some(36),
                Some(96),
                PromptOutputFormat::PlainText,
            ),
            PromptMode::SummaryBridge => mode_config_value(
                SUMMARY_BRIDGE_INSTRUCTION,
                4,
                3,
                Some(38),
                Some(96),
                PromptOutputFormat::PlainText,
            ),
            PromptMode::AmbientLine => mode_config_value(
                AMBIENT_LINE_INSTRUCTION,
                4,
                0,
                Some(16),
                Some(40),
                PromptOutputFormat::PlainText,
            ),
            PromptMode::ToolStatusExplanation => mode_config_value(
                TOOL_STATUS_INSTRUCTION,
                3,
                0,
                Some(22),
                Some(72),
                PromptOutputFormat::PlainText,
            ),
            PromptMode::ErrorExplanation => mode_config_value(
                ERROR_EXPLANATION_INSTRUCTION,
                3,
                0,
                Some(22),
                Some(72),
                PromptOutputFormat::PlainText,
            ),
        }
    }

    /// `configured` laid over the built-in configuration of `mode`.
    pub fn merge_defaults(mode: PromptMode, configured: &PromptModeConfig) -> (r: Self)
        ensures
            r@ == spec_merge_defaults(mode, configured@),
    {
        let defaults = Self::for_mode(mode);
        let output_format = if configured.output_format == PromptOutputFormat::PlainText
            && defaults.output_format == PromptOutputFormat::JsonEnvelope {
            defaults.output_format
        } else {
            configured.output_format
        };
        PromptModeConfig {
            instruction: if is_blank_str(configured.instruction.as_str()) {
                defaults.instruction
            } else {
                configured.instruction.clone()
            },
            max_context_messages: if configured.max_context_messages == 0 {
                defaults.max_context_messages
            } else {
                configured.max_context_messages
            },
            max_memory_items: if configured.max_memory_items == 0 {
                defaults.max_memory_items
            } else {
                configured.max_memory_items
            },
            max_words: match configured.max_words {
                Some(v) => Some(v),
                None => defaults.max_words,
            },
            max_output_tokens: match configured.max_output_tokens {
                Some(v) => Some(v),
                None => defaults.max_output_tokens,
            },
            output_format,
        }
    }
}

impl Default for PromptModeConfig {
    /// A blank configuration: no instruction, four context messages, no memory
    /// items, no limits, plain text.
    fn default() -> (r: Self)
        ensures
            r@ == mode_view(Seq::empty(), 4, 0, None, None, PromptOutputFormat::PlainText),
    {
        PromptModeConfig {
            instruction: String::new(),
            max_context_messages: 4,
            max_memory_items: 0,
            max_words: None,
            max_output_tokens: None,
            output_format: PromptOutputFormat::PlainText,
        }
    }
}

/// One configuration per mode.
#[derive(Debug, Clone)]
pub struct PromptModesConfig {
    pub first_beat: PromptModeConfig,
    pub nano_reply: PromptModeConfig,
    pub cloud_reasoning: PromptModeConfig,
    pub followup_reasoning: PromptModeConfig,
    pub memory_backed_recall: PromptModeConfig,
    pub summary_bridge: PromptModeConfig,
    pub ambient_line: PromptModeConfig,
    pub tool_status_explanation: PromptModeConfig,
    pub error_explanation: PromptModeConfig,
}

impl PromptModesConfig {
    /// The configuration filed under `mode`.
    pub open spec fn spec_get(&self, mode: PromptMode) -> ModeConfigView {
        match mode {
            PromptMode::FirstBeat => self.first_beat@,
            PromptMode::NanoReply => self.nano_reply@,
            PromptMode::CloudReasoning => self.cloud_reasoning@,
            PromptMode::FollowupReasoning => self.followup_reasoning@,
            PromptMode::MemoryBackedRecall => self.memory_backed_recall@,
            PromptMode::SummaryBridge => self.summary_bridge@,
            PromptMode::AmbientLine => self.ambient_line@,
            PromptMode::ToolStatusExplanation => self.tool_status_explanation@,
            PromptMode::ErrorExplanation => self.error_explanation@,
        }
    }
}

impl Default for PromptModesConfig {
    /// Every mode at its built-in configuration.
    fn default() -> (r: Self)
        ensures
            forall|mode: PromptMode| #[trigger] r.spec_get(mode) == spec_for_mode(mode),
    {
        PromptModesConfig {
            first_beat: PromptModeConfig::for_mode(PromptMode::FirstBeat),
            nano_reply: PromptModeConfig::for_mode(PromptMode::NanoReply),
            cloud_reasoning: PromptModeConfig::for_mode(PromptMode::CloudReasoning),
            followup_reasoning: PromptModeConfig::for_mode(PromptMode::FollowupReasoning),
            memory_backed_recall: PromptModeConfig::for_mode(PromptMode::MemoryBackedRecall),
            summary_bridge: PromptModeConfig::for_mode(PromptMode::SummaryBridge),
            ambient_line: PromptModeConfig::for_mode(PromptMode::AmbientLine),
            tool_status_explanation: PromptModeConfig::for_mode(PromptMode::ToolStatusExplanation),
            error_explanation: PromptModeConfig::for_mode(PromptMode::ErrorExplanation),
        }
    }
}

/// The sections every prompt shares.
#[derive(Debug, Clone)]
pub struct PromptSharedConfig {
    pub assistant_identity: String,
    pub continuity_instruction: String,
    pub memory_preamble: String,
    pub tool_instructions: String,
    pub response_contract: String,
}

pub struct SharedView {
    pub assistant_identity: Seq<char>,
    pub continuity_instruction: Seq<char>,
    pub memory_preamble: Seq<char>,
    pub tool_instructions: Seq<char>,
    pub response_contract: Seq<char>,
}

impl View for PromptSharedConfig {
    type V = SharedView;

    open spec fn view(&self) -> SharedView {
        SharedView {
            assistant_identity: self.assistant_identity@,
            continuity_instruction: self.continuity_instruction@,
            memory_preamble: self.memory_preamble@,
            tool_instructions: self.tool_instructions@,
            response_contract: self.response_contract@,
        }
    }
}

pub open spec fn fallback_shared() -> SharedView {
    SharedView {
        assistant_identity: DEFAULT_ASSISTANT_IDENTITY@,
        continuity_instruction: DEFAULT_CONTINUITY_INSTRUCTION@,
        memory_preamble: DEFAULT_MEMORY_PREAMBLE@,
        tool_instructions: DEFAULT_TOOL_INSTRUCTIONS@,
        response_contract: DEFAULT_RESPONSE_CONTRACT@,
    }
}

impl PromptSharedConfig {
    /// The built-in shared sections.
    pub fn fallback_defaults() -> (r: Self)
        ensures
            r@ == fallback_shared(),
    {
        PromptSharedConfig {
            assistant_identity: DEFAULT_ASSISTANT_IDENTITY.to_owned(),
            continuity_instruction: DEFAULT_CONTINUITY_INSTRUCTION.to_owned(),
            memory_preamble: DEFAULT_MEMORY_PREAMBLE.to_owned(),
            tool_instructions: DEFAULT_TOOL_INSTRUCTIONS.to_owned(),
            response_contract: DEFAULT_RESPONSE_CONTRACT.to_owned(),
        }
    }
}

impl Default for PromptSharedConfig {
    /// All shared sections blank.
    fn default() -> (r: Self)
        ensures
            r@ == (SharedView {
                assistant_identity: Seq::empty(),
                continuity_instruction: Seq::empty(),
                memory_preamble: Seq::empty(),
                tool_instructions: Seq::empty(),
                response_contract: Seq::empty(),
            }),
    {
        PromptSharedConfig {
            assistant_identity: String::new(),
            continuity_instruction: String::new(),
            memory_preamble: String::new(),
            tool_instructions: String::new(),
            response_contract: String::new(),
        }
    }
}

/// The translator's configuration: the older single strings, the shared
/// sections and the per-mode configurations.
#[derive(Debug, Clone)]
pub struct PromptConfig {
    pub system_prompt: String,
    pub memory_preamble: String,
    pub tool_instructions: String,
    pub response_contract: String,
    pub shared: PromptSharedConfig,
    pub modes: PromptModesConfig,
}

/// A shared section: its configured text where not blank, else the older single
/// string trimmed where not blank, else the built-in text.
pub open spec fn pick_section(shared: Seq<char>, legacy: Seq<char>, default: Seq<char>) -> Seq<char> {
    if trim(shared).len() == 0 {
        if trim(legacy).len() == 0 {
            default
        } else {
            trim(legacy)
        }
    } else {
        shared
    }
}

impl PromptConfig {
    /// The shared sections in force (see `pick_section`; the continuity
    /// instruction has no older string).
    pub open spec fn spec_shared_config(&self) -> SharedView {
        SharedView {
            assistant_identity: pick_section(
                self.shared.assistant_identity@,
                self.system_prompt@,
                DEFAULT_ASSISTANT_IDENTITY@,
            ),
            continuity_instruction: if trim(self.shared.continuity_instruction@).len() == 0 {
                DEFAULT_CONTINUITY_INSTRUCTION@
            } else {
                self.shared.continuity_instruction@
            },
            memory_preamble: pick_section(
                self.shared.memory_preamble@,
                self.memory_preamble@,
                DEFAULT_MEMORY_PREAMBLE@,
            ),
            tool_instructions: pick_section(
                self.shared.tool_instructions@,
                self.tool_instructions@,
                DEFAULT_TOOL_INSTRUCTIONS@,
            ),
            response_contract: pick_section(
                self.shared.response_contract@,
                self.response_contract@,
                DEFAULT_RESPONSE_CONTRACT@,
            ),
        }
    }

    /// The configuration in force for `mode`.
    pub open spec fn spec_mode_config(&self, mode: PromptMode) -> ModeConfigView {
        spec_merge_defaults(mode, self.modes.spec_get(mode))
    }

    /// A configuration from the older single strings, with blank shared sections
    /// and the built-in mode configurations.
    pub fn from_legacy_strings(
        system_prompt: &str,
        memory_preamble: &str,
        tool_instructions: &str,
        response_contract: &str,
    ) -> (r: Self)
        ensures
            r.system_prompt@ == system_prompt@,
            r.memory_preamble@ == memory_preamble@,
            r.tool_instructions@ == tool_instructions@,
            r.response_contract@ == response_contract@,
            r.shared@ == (SharedView {
                assistant_identity: Seq::empty(),
                continuity_instruction: Seq::empty(),
                memory_preamble: Seq::empty(),
                tool_instructions: Seq::empty(),
                response_contract: Seq::empty(),
            }),
            forall|mode: PromptMode| #[trigger] r.modes.spec_get(mode) == spec_for_mode(mode),
    {
        PromptConfig {
            system_prompt: system_prompt.to_owned(),
            memory_preamble: memory_preamble.to_owned(),
            tool_instructions: tool_instructions.to_owned(),
            response_contract: response_contract.to_owned(),
            shared: PromptSharedConfig::default(),
            modes: PromptModesConfig::default(),
        }
    }

    pub fn shared_config(&self) -> (r: PromptSharedConfig)
        ensures
            r@ == self.spec_shared_config(),
    {
        PromptSharedConfig {
            assistant_identity: pick_section_text(
                &self.shared.assistant_identity,
                &self.system_prompt,
                DEFAULT_ASSISTANT_IDENTITY,
            ),
            continuity_instruction: if is_blank_str(self.shared.continuity_instruction.as_str()) {
                DEFAULT_CONTINUITY_INSTRUCTION.to_owned()
            } else {
                self.shared.continuity_instruction.clone()
            },
            memory_preamble: pick_section_text(
                &self.shared.memory_preamble,
                &self.memory_preamble,
                DEFAULT_MEMORY_PREAMBLE,
            ),
            tool_instructions: pick_section_text(
                &self.shared.tool_instructions,
                &self.tool_instructions,
                DEFAULT_TOOL_INSTRUCTIONS,
            ),
            response_contract: pick_section_text(
                &self.shared.response_contract,
                &self.response_contract,
                DEFAULT_RESPONSE_CONTRACT,
            ),
        }
    }

    pub fn mode_config(&self, mode: PromptMode) -> (r: PromptModeConfig)
        ensures
            r@ == self.spec_mode_config(mode),
    {
        let configured = match mode {
            PromptMode::FirstBeat => &self.modes.first_beat,
            PromptMode::NanoReply => &self.modes.nano_reply,
            PromptMode::CloudReasoning => &self.modes.cloud_reasoning,
            PromptMode::FollowupReasoning => &self.modes.followup_reasoning,
            PromptMode::MemoryBackedRecall => &self.modes.memory_backed_recall,
            PromptMode::SummaryBridge => &self.modes.summary_bridge,
            PromptMode::AmbientLine => &self.modes.ambient_line,
            PromptMode::ToolStatusExplanation => &self.modes.tool_status_explanation,
            PromptMode::ErrorExplanation => &self.modes.error_explanation,
        };
        PromptModeConfig::merge_defaults(mode, configured)
    }
}

fn pick_section_text(shared: &String, legacy: &String, default: &str) -> (r: String)
    ensures
        r@ == pick_section(shared@, legacy@, default@),
{
    if is_blank_str(shared.as_str()) {
        if is_blank_str(legacy.as_str()) {
            default.to_owned()
        } else {
            let v = chars_of(legacy.as_str());
            let t = trim_chars(&v);
            string_of(&t)
        }
    } else {
        shared.clone()
    }
}

impl Default for PromptConfig {
    /// No older strings, the built-in shared sections, the built-in modes.
    fn default() -> (r: Self)
        ensures
            r.system_prompt@ == Seq::<char>::empty(),
            r.memory_preamble@ == Seq::<char>::empty(),
            r.tool_instructions@ == Seq::<char>::empty(),
            r.response_contract@ == Seq::<char>::empty(),
            r.shared@ == fallback_shared(),
            forall|mode: PromptMode| #[trigger] r.modes.spec_get(mode) == spec_for_mode(mode),
    {
        PromptConfig {
            system_prompt: String::new(),
            memory_preamble: String::new(),
            tool_instructions: String::new(),
            response_contract: String::new(),
            shared: PromptSharedConfig::fallback_defaults(),
            modes: PromptModesConfig::default(),
        }
    }
}


// ---------------------------------------------------------------------------
// Text rules
// ---------------------------------------------------------------------------

/// Code fences, backticks and line breaks read as spaces, white space collapsed.
pub open spec fn spec_strip_markdown(value: Seq<char>) -> Seq<char> {
    let a = replace_all(value, "```json"@, " "@);
    let b = replace_all(a, "```"@, " "@);
    let c = replace_char(b, '`', ' ');
    let d = replace_char(c, '\n', ' ');
    let e = replace_char(d, '\r', ' ');
    let f = replace_char(e, '\t', ' ');
    collapse_ws(f)
}

pub fn strip_markdown_chars(v: &Vec<char>) -> (r: Vec<char>)
    ensures
        r@ == spec_strip_markdown(v@),
{
    let fence_json = chars_of("```json");
    let fence = chars_of("```");
    let space = chars_of(" ");
    proof {
        reveal_strlit("```json");
        reveal_strlit("```");
    }
    let a = replace_all_chars(v, &fence_json, &space);
    let b = replace_all_chars(&a, &fence, &space);
    let c = replace_char_chars(&b, '`', ' ');
    let d = replace_char_chars(&c, '\n', ' ');
    let e = replace_char_chars(&d, '\r', ' ');
    let f = replace_char_chars(&e, '\t', ' ');
    collapse_ws_chars(&f)
}

pub fn strip_markdown_artifacts(value: &str) -> (r: String)
    ensures
        r@ == spec_strip_markdown(value@),
{
    let v = chars_of(value);
    let r = strip_markdown_chars(&v);
    string_of(&r)
}

/// The comparison key of a text: markdown stripped, lower-cased, only letters,
/// digits and white space kept, white space collapsed.
pub open spec fn spec_normalize_text_key(value: Seq<char>) -> Seq<char> {
    collapse_ws(keep_word_chars(spec_to_lowercase(spec_strip_markdown(value))))
}

pub fn normalize_text_key(value: &str) -> (r: String)
    ensures
        r@ == spec_normalize_text_key(value@),
{
    let stripped = strip_markdown_artifacts(value);
    let lower = lowercase_chars(stripped.as_str());
    let kept = keep_word_chars_chars(&lower);
    let collapsed = collapse_ws_chars(&kept);
    string_of(&collapsed)
}

pub open spec fn spec_rank_memory_kind(kind: Seq<char>) -> u8 {
    let k = spec_to_lowercase(kind);
    if k == "fact"@ {
        0
    } else if k == "profile"@ {
        1
    } else if k == "preference"@ {
        2
    } else if k == "summary"@ {
        3
    } else {
        4
    }
}

/// Facts rank first, then profile, preference and summary memories, then the rest.
pub fn rank_memory_kind(kind: &str) -> (r: u8)
    ensures
        r == spec_rank_memory_kind(kind@),
{
    let k = lowercase_chars(kind);
    if chars_eq_str(&k, "fact") {
        0
    } else if chars_eq_str(&k, "profile") {
        1
    } else if chars_eq_str(&k, "preference") {
        2
    } else if chars_eq_str(&k, "summary") {
        3
    } else {
        4
    }
}

pub open spec fn spec_short_role_label(role: Seq<char>) -> Seq<char> {
    if role == "assistant"@ {
        "assistant"@
    } else if role == "tool"@ {
        "tool"@
    } else if role == "system"@ {
        "system"@
    } else {
        "user"@
    }
}

/// The role as a transcript line names it: assistant, tool and system keep their
/// name, any other role reads as user.
pub fn short_role_label(role: &str) -> (r: &'static str)
    ensures
        r@ == spec_short_role_label(role@),
{
    let v = chars_of(role);
    if chars_eq_str(&v, "assistant") {
        "assistant"
    } else if chars_eq_str(&v, "tool") {
        "tool"
    } else if chars_eq_str(&v, "system") {
        "system"
    } else {
        "user"
    }
}

pub open spec fn spec_map_message_role(role: Seq<char>) -> Seq<char> {
    if role == "assistant"@ {
        "assistant"@
    } else if role == "tool"@ || role == "system"@ {
        "system"@
    } else {
        "user"@
    }
}

/// The role a transcript message takes in a cloud request: tool output is sent
/// as a system message, unknown roles as the user's.
pub fn map_message_role(role: &str) -> (r: String)
    ensures
        r@ == spec_map_message_role(role@),
{
    let v = chars_of(role);
    if chars_eq_str(&v, "assistant") {
        "assistant".to_owned()
    } else if chars_eq_str(&v, "tool") || chars_eq_str(&v, "system") {
        "system".to_owned()
    } else {
        "user".to_owned()
    }
}

/// A span ends at character `k` where that character is a terminator or the span
/// already holds `max` bytes or more.
pub open spec fn span_stop(t: Seq<char>, max: nat, terms: Seq<char>, k: int) -> bool {
    terms.contains(t[k]) || encode_utf8(t.take(k)).len() >= max
}

/// The first stop at or after `k`, or the end.
pub open spec fn span_end_from(t: Seq<char>, max: nat, terms: Seq<char>, k: int) -> int
    decreases t.len() - k,
{
    if k < 0 || k >= t.len() {
        t.len() as int
    } else if span_stop(t, max, terms, k) {
        k
    } else {
        span_end_from(t, max, terms, k + 1)
    }
}

/// The trimmed text up to its first terminator or to where `max` bytes are
/// reached, trimmed again.
pub open spec fn spec_leading_span(value: Seq<char>, max: nat, terms: Seq<char>) -> Seq<char> {
    let t = trim(value);
    if t.len() == 0 {
        Seq::empty()
    } else {
        trim(t.take(span_end_from(t, max, terms, 0)))
    }
}

fn char_in(terms: &Vec<char>, c: char) -> (r: bool)
    ensures
        r == terms@.contains(c),
{
    let mut i: usize = 0;
    while i < terms.len()
        invariant
            i <= terms.len(),
            forall|j: int| 0 <= j < i ==> terms@[j] != c,
        decreases terms.len() - i,
    {
        if terms[i] == c {
            assert(terms@[i as int] == c);
            return true;
        }
        i = i + 1;
    }
    false
}

pub fn utf8_len_of(v: &Vec<char>) -> (r: usize)
    ensures
        r == encode_utf8(v@).len(),
{
    let s = string_of(v);
    s.as_str().as_bytes().len()
}

pub fn leading_span(value: &str, max_chars: usize, terminators: &Vec<char>) -> (r: String)
    ensures
        r@ == spec_leading_span(value@, max_chars as nat, terminators@),
{
    let v = chars_of(value);
    let t = trim_chars(&v);
    if t.len() == 0 {
        return String::new();
    }
    let mut k: usize = 0;
    while k < t.len()
        invariant
            k <= t.len(),
            trim(value@) == t@,
            t@.len() > 0,
            span_end_from(t@, max_chars as nat, terminators@, k as int) == span_end_from(
                t@,
                max_chars as nat,
                terminators@,
                0,
            ),
        decreases t.len() - k,
    {
        let prefix = slice_chars(&t, 0, k);
        assert(prefix@ =~= t@.take(k as int));
        let stop = char_in(terminators, t[k]) || utf8_len_of(&prefix) >= max_chars;
        if stop {
            let head = slice_chars(&t, 0, k);
            assert(head@ =~= t@.take(k as int));
            let r = trim_chars(&head);
            return string_of(&r);
        }
        k = k + 1;
    }
    assert(t@.take(t@.len() as int) =~= t@);
    let r = trim_chars(&t);
    string_of(&r)
}

/// Leading separators (white space, dashes, colons, semicolons, commas, full
/// stops) dropped, then trimmed.
pub open spec fn spec_trim_leading_separator_span(value: Seq<char>) -> Seq<char> {
    trim(trim_start_set(value, CharSet::Separator))
}

pub fn trim_leading_separator_chars(v: &Vec<char>) -> (r: Vec<char>)
    ensures
        r@ == spec_trim_leading_separator_span(v@),
{
    let s = trim_start_set_chars(v, CharSet::Separator);
    trim_chars(&s)
}

pub fn trim_leading_separator_span(value: &str) -> (r: String)
    ensures
        r@ == spec_trim_leading_separator_span(value@),
{
    let v = chars_of(value);
    let r = trim_leading_separator_chars(&v);
    string_of(&r)
}

/// `s.strip_prefix(p)` followed by trimming the leading separators.
pub open spec fn strip_then_trim(s: Seq<char>, p: Seq<char>) -> Option<Seq<char>> {
    if starts_with(s, p) {
        Some(spec_trim_leading_separator_span(s.skip(p.len() as int)))
    } else {
        None
    }
}

fn strip_then_trim_chars(s: &Vec<char>, p: &Vec<char>) -> (r: Option<Vec<char>>)
    ensures
        match (r, strip_then_trim(s@, p@)) {
            (Some(a), Some(b)) => a@ == b,
            (None, None) => true,
            _ => false,
        },
{
    if starts_with_chars(s, p) {
        let rest = slice_chars(s, p.len(), s.len());
        assert(rest@ =~= s@.skip(p@.len() as int));
        Some(trim_leading_separator_chars(&rest))
    } else {
        None
    }
}

pub open spec fn sentence_terminators() -> Seq<char> {
    seq!['.', '!', '?', '\n']
}

pub open spec fn opener_terminators() -> Seq<char> {
    seq![',', ':', ';', '.', '!', '?', '\u{2014}', '-']
}

/// Where the continuation's first sentence says again what the first beat's
/// first sentence said (equal keys of at least twelve bytes), the rest of the
/// continuation; sentences end at `.`, `!`, `?` or a line break, or after 96 bytes.
pub open spec fn spec_strip_matching_opening_sentence(first: Seq<char>, cont: Seq<char>) -> Option<
    Seq<char>,
> {
    let fs = spec_leading_span(first, 96, sentence_terminators());
    let cs = spec_leading_span(cont, 96, sentence_terminators());
    if fs.len() == 0 || cs.len() == 0 {
        None
    } else {
        let nf = spec_normalize_text_key(fs);
        let nc = spec_normalize_text_key(cs);
        if encode_utf8(nf).len() < 12 || nf != nc {
            None
        } else {
            strip_then_trim(cont, cs)
        }
    }
}

fn sentence_terminator_vec() -> (r: Vec<char>)
    ensures
        r@ == sentence_terminators(),
{
    let r = vec!['.', '!', '?', '\n'];
    assert(r@ =~= sentence_terminators());
    r
}

fn opener_terminator_vec() -> (r: Vec<char>)
    ensures
        r@ == opener_terminators(),
{
    let r = vec![',', ':', ';', '.', '!', '?', '\u{2014}', '-'];
    assert(r@ =~= opener_terminators());
    r
}

pub fn strip_matching_opening_sentence(first_beat: &str, continuation: &str) -> (r: Option<String>)
    ensures
        match (r, spec_strip_matching_opening_sentence(first_beat@, continuation@)) {
            (Some(a), Some(b)) => a@ == b,
            (None, None) => true,
            _ => false,
        },
{
    let terms = sentence_terminator_vec();
    let first_sentence = leading_span(first_beat, 96, &terms);
    let continuation_sentence = leading_span(continuation, 96, &terms);
    if first_sentence.as_str().as_bytes().len() == 0 || continuation_sentence.as_str().as_bytes().len() == 0 {
        proof {
            vstd::utf8::encode_utf8_decode_utf8(first_sentence@);
            vstd::utf8::encode_utf8_decode_utf8(continuation_sentence@);
        }
        return None;
    }
    proof {
        if first_sentence@.len() == 0 {
            assert(encode_utf8(first_sentence@) =~= Seq::<u8>::empty());
        }
        if continuation_sentence@.len() == 0 {
            assert(encode_utf8(continuation_sentence@) =~= Seq::<u8>::empty());
        }
    }
    let normalized_first = normalize_text_key(first_sentence.as_str());
    let normalized_continuation = normalize_text_key(continuation_sentence.as_str());
    let nf = chars_of(normalized_first.as_str());
    if normalized_first.as_str().as_bytes().len() < 12 || !chars_eq_str(
        &nf,
        normalized_continuation.as_str(),
    ) {
        return None;
    }
    let cv = chars_of(continuation);
    let sv = chars_of(continuation_sentence.as_str());
    match strip_then_trim_chars(&cv, &sv) {
        Some(rest) => Some(string_of(&rest)),
        None => None,
    }
}

/// Whether a normalised opener is one of the filler openers.
pub open spec fn is_filler_opener(n: Seq<char>) -> bool {
    n == "sure"@ || n == "okay"@ || n == "ok"@ || n == "alright"@ || n == "all right"@ || n
        == "got it"@ || n == "absolutely"@ || n == "let me explain"@ || n
        == "let me break it down"@
}

/// Where the continuation opens with a filler ("Sure", "Okay", "Got it", ...)
/// up to its first punctuation or within 40 bytes, the rest of it.
pub open spec fn spec_strip_known_filler_opener(cont: Seq<char>) -> Option<Seq<char>> {
    let opener = spec_leading_span(cont, 40, opener_terminators());
    if !is_filler_opener(spec_normalize_text_key(opener)) {
        None
    } else {
        strip_then_trim(cont, opener)
    }
}

pub fn strip_known_filler_opener(continuation: &str) -> (r: Option<String>)
    ensures
        match (r, spec_strip_known_filler_opener(continuation@)) {
            (Some(a), Some(b)) => a@ == b,
            (None, None) => true,
            _ => false,
        },
{
    let terms = opener_terminator_vec();
    let opener = leading_span(continuation, 40, &terms);
    let normalized = normalize_text_key(opener.as_str());
    let n = chars_of(normalized.as_str());
    let filler = chars_eq_str(&n, "sure") || chars_eq_str(&n, "okay") || chars_eq_str(&n, "ok")
        || chars_eq_str(&n, "alright") || chars_eq_str(&n, "all right") || chars_eq_str(
        &n,
        "got it",
    ) || chars_eq_str(&n, "absolutely") || chars_eq_str(&n, "let me explain") || chars_eq_str(
        &n,
        "let me break it down",
    );
    if !filler {
        return None;
    }
    let cv = chars_of(continuation);
    let ov = chars_of(opener.as_str());
    match strip_then_trim_chars(&cv, &ov) {
        Some(rest) => Some(string_of(&rest)),
        None => None,
    }
}

/// The continuation with what repeats the first beat taken off its front: the
/// first beat itself, a restated opening sentence, or a filler opener.
pub open spec fn spec_trim_duplicate_prefix(first_beat: Seq<char>, continuation: Seq<char>) -> Seq<
    char,
> {
    let first = trim(first_beat);
    let continued = trim(continuation);
    if first.len() == 0 {
        continued
    } else if starts_with(continued, first) {
        spec_trim_leading_separator_span(continued.skip(first.len() as int))
    } else if spec_strip_matching_opening_sentence(first, continued) is Some {
        spec_strip_matching_opening_sentence(first, continued)->0
    } else if spec_strip_known_filler_opener(continued) is Some {
        spec_strip_known_filler_opener(continued)->0
    } else {
        continued
    }
}

pub fn trim_duplicate_prefix(first_beat: &str, continuation: &str) -> (r: String)
    ensures
        r@ == spec_trim_duplicate_prefix(first_beat@, continuation@),
{
    let fv = chars_of(first_beat);
    let first = trim_chars(&fv);
    let cv = chars_of(continuation);
    let continued = trim_chars(&cv);
    if first.len() == 0 {
        return string_of(&continued);
    }
    if let Some(stripped) = strip_then_trim_chars(&continued, &first) {
        return string_of(&stripped);
    }
    let first_s = string_of(&first);
    let continued_s = string_of(&continued);
    if let Some(stripped) = strip_matching_opening_sentence(first_s.as_str(), continued_s.as_str()) {
        return stripped;
    }
    if let Some(stripped) = strip_known_filler_opener(continued_s.as_str()) {
        return stripped;
    }
    continued_s
}


// ---------------------------------------------------------------------------
// Visible text
// ---------------------------------------------------------------------------

/// Whether `serde_json` reads the text as a JSON value.
pub uninterp spec fn spec_is_valid_json(text: Seq<char>) -> bool;

/// Calls `serde_json::from_str::<serde_json::Value>` and reports whether it
/// succeeded; the answer is named by `spec_is_valid_json`.
#[verifier::external_body]
fn is_valid_json(text: &str) -> (r: bool)
    ensures
        r == spec_is_valid_json(text@),
{
    serde_json::from_str::<serde_json::Value>(text).is_ok()
}

/// Text that reads as the internal envelope rather than as words for the user:
/// it names an envelope field, a prompt-debug marker, opens a JSON fence, or is
/// a bracketed block that parses as JSON.
pub open spec fn spec_looks_like_internal_payload(value: Seq<char>) -> bool {
    let t = trim(value);
    if t.len() == 0 {
        false
    } else {
        let lower = spec_to_lowercase(t);
        if contains(lower, "\"assistant_reply\""@) || contains(lower, "\"tool_request\""@)
            || contains(lower, "\"memory_candidates\""@) || contains(lower, "assistant_reply:"@)
            || contains(lower, "tool_request:"@) || contains(lower, "memory_candidates:"@)
            || contains(lower, "prompt-debug"@) {
            true
        } else if starts_with(t, "```json"@) {
            true
        } else if (t[0] == '{' && t.last() == '}') || (t[0] == '[' && t.last() == ']') {
            spec_is_valid_json(t)
        } else {
            false
        }
    }
}

pub fn looks_like_internal_payload(value: &str) -> (r: bool)
    ensures
        r == spec_looks_like_internal_payload(value@),
{
    let v = chars_of(value);
    let t = trim_chars(&v);
    if t.len() == 0 {
        return false;
    }
    let ts = string_of(&t);
    let lower = lowercase_chars(ts.as_str());
    if contains_str(&lower, "\"assistant_reply\"") || contains_str(&lower, "\"tool_request\"")
        || contains_str(&lower, "\"memory_candidates\"") || contains_str(
        &lower,
        "assistant_reply:",
    ) || contains_str(&lower, "tool_request:") || contains_str(&lower, "memory_candidates:")
        || contains_str(&lower, "prompt-debug") {
        return true;
    }
    if starts_with_str(&t, "```json") {
        return true;
    }
    let n = t.len();
    if (t[0] == '{' && t[n - 1] == '}') || (t[0] == '[' && t[n - 1] == ']') {
        return is_valid_json(ts.as_str());
    }
    false
}

/// Visible text: trimmed, blank where it is an internal payload, surrounding
/// double quotes dropped.
pub open spec fn spec_sanitize_visible_text(value: Seq<char>) -> Seq<char> {
    let t = trim(value);
    if t.len() == 0 || spec_looks_like_internal_payload(t) {
        Seq::empty()
    } else {
        trim(trim_set(t, CharSet::DoubleQuote))
    }
}

pub fn sanitize_visible_text(value: &str) -> (r: String)
    ensures
        r@ == spec_sanitize_visible_text(value@),
{
    let v = chars_of(value);
    let t = trim_chars(&v);
    let ts = string_of(&t);
    if t.len() == 0 || looks_like_internal_payload(ts.as_str()) {
        return String::new();
    }
    let q = trim_set_chars(&t, CharSet::DoubleQuote);
    let r = trim_chars(&q);
    string_of(&r)
}

/// A first section and its continuation, with what the continuation repeats
/// taken off and a blank line between them.
pub open spec fn spec_stitch_visible_sections(first: Seq<char>, continuation: Seq<char>) -> Seq<char> {
    let cont = spec_trim_duplicate_prefix(first, trim(continuation));
    if cont.len() == 0 {
        trim(first)
    } else if trim(first).len() == 0 {
        cont
    } else {
        trim(first) + "\n\n"@ + cont
    }
}

pub fn stitch_visible_sections(first: &str, continuation: &str) -> (r: String)
    ensures
        r@ == spec_stitch_visible_sections(first@, continuation@),
{
    let cv = chars_of(continuation);
    let ct = trim_chars(&cv);
    let cts = string_of(&ct);
    let cont = trim_duplicate_prefix(first, cts.as_str());
    let fv = chars_of(first);
    let ft = trim_chars(&fv);
    if cont.as_str().as_bytes().len() == 0 {
        proof {
            vstd::utf8::encode_utf8_decode_utf8(cont@);
        }
        return string_of(&ft);
    }
    proof {
        if cont@.len() == 0 {
            assert(vstd::utf8::encode_utf8(cont@) =~= Seq::<u8>::empty());
        }
    }
    if ft.len() == 0 {
        return cont;
    }
    let mut out = copy_chars(&ft);
    append_str(&mut out, "\n\n");
    append_str(&mut out, cont.as_str());
    string_of(&out)
}

/// The reply the user sees: the first beat, the reply and any tool summary, each
/// sanitised, stitched together; the first beat alone where that leaves nothing.
pub open spec fn spec_compose_visible_reply(
    first_beat: Seq<char>,
    assistant_reply: Seq<char>,
    tool_summary: Option<Seq<char>>,
) -> Seq<char> {
    let fb = spec_sanitize_visible_text(first_beat);
    let ar = spec_sanitize_visible_text(assistant_reply);
    let joined = spec_stitch_visible_sections(fb, ar);
    let text = match tool_summary {
        Some(ts) => if spec_sanitize_visible_text(ts).len() > 0 {
            spec_stitch_visible_sections(joined, spec_sanitize_visible_text(ts))
        } else {
            joined
        },
        None => joined,
    };
    if trim(text).len() == 0 {
        fb
    } else {
        text
    }
}

// ---------------------------------------------------------------------------
// Sections
// ---------------------------------------------------------------------------

/// The sections that are present and not blank, each trimmed.
pub open spec fn section_texts(sections: Seq<Option<Seq<char>>>) -> Seq<Seq<char>>
    decreases sections.len(),
{
    if sections.len() == 0 {
        Seq::empty()
    } else {
        let rest = section_texts(sections.drop_last());
        match sections.last() {
            Some(s) => if trim(s).len() > 0 {
                rest.push(trim(s))
            } else {
                rest
            },
            None => rest,
        }
    }
}

/// The present, non-blank sections, trimmed, separated by blank lines.
pub open spec fn spec_join_sections(sections: Seq<Option<Seq<char>>>) -> Seq<char> {
    join(section_texts(sections), "\n\n"@)
}

pub open spec fn opt_strs_view(v: Seq<Option<String>>) -> Seq<Option<Seq<char>>> {
    v.map_values(|o: Option<String>| match o {
        Some(s) => Some(s@),
        None => None,
    })
}

pub fn join_sections(sections: Vec<Option<String>>) -> (r: String)
    ensures
        r@ == spec_join_sections(opt_strs_view(sections@)),
{
    let ghost all = opt_strs_view(sections@);
    let mut parts: Vec<Vec<char>> = Vec::new();
    let mut i: usize = 0;
    while i < sections.len()
        invariant
            i <= sections.len(),
            all == opt_strs_view(sections@),
            seqs_of(parts@) == section_texts(all.take(i as int)),
        decreases sections.len() - i,
    {
        assert(all.take(i + 1).drop_last() =~= all.take(i as int));
        assert(all.take(i + 1).last() == all[i as int]);
        let ghost before = seqs_of(parts@);
        match &sections[i] {
            Some(s) => {
                let v = chars_of(s.as_str());
                let t = trim_chars(&v);
                if t.len() > 0 {
                    parts.push(t);
                    assert(seqs_of(parts@) =~= before.push(trim(s@)));
                }
            },
            None => {},
        }
        i = i + 1;
    }
    assert(all.take(sections.len() as int) =~= all);
    let sep = chars_of("\n\n");
    let j = join_chars(&parts, &sep);
    string_of(&j)
}

/// "Length: under N words." where a word limit is set.
pub open spec fn length_line(max_words: Option<usize>) -> Option<Seq<char>> {
    match max_words {
        Some(v) => Some("Length: under "@ + crate::text::decimal(v as nat) + " words."@),
        None => None,
    }
}

fn length_line_text(max_words: Option<usize>) -> (r: Option<String>)
    ensures
        match (r, length_line(max_words)) {
            (Some(a), Some(b)) => a@ == b,
            (None, None) => true,
            _ => false,
        },
{
    match max_words {
        Some(v) => {
            let mut out: Vec<char> = Vec::new();
            append_str(&mut out, "Length: under ");
            crate::text::append_decimal(&mut out, v as u64);
            append_str(&mut out, " words.");
            Some(string_of(&out))
        },
        None => None,
    }
}

/// The tone constraints of a policy, in order.
pub open spec fn policy_constraints(policy: BehaviorPolicy, mode: PromptMode) -> Seq<Seq<char>> {
    let tone = if policy.allow_playfulness {
        if policy.allow_humor {
            "Tone: warm, calm, lightly human."@
        } else {
            "Tone: warm, calm, not jokey."@
        }
    } else {
        "Tone: calm, plain, and restrained."@
    };
    let a = seq![tone];
    let b = if !policy.allow_humor {
        a.push("Do not use jokes or playful asides."@)
    } else {
        a
    };
    let c = if !policy.allow_initiative {
        b.push("Do not invent new agenda beyond the current turn."@)
    } else {
        b
    };
    if policy.prefer_silence && mode == PromptMode::AmbientLine {
        c.push("If the event does not clearly help, return an empty response."@)
    } else {
        c
    }
}

pub open spec fn spec_render_policy_constraints(policy: BehaviorPolicy, mode: PromptMode) -> Seq<char> {
    join(policy_constraints(policy, mode), " "@)
}

pub fn render_policy_constraints(policy: &BehaviorPolicy, mode: PromptMode) -> (r: String)
    ensures
        r@ == spec_render_policy_constraints(*policy, mode),
{
    let mut parts: Vec<Vec<char>> = Vec::new();
    if policy.allow_playfulness {
        if policy.allow_humor {
            parts.push(chars_of("Tone: warm, calm, lightly human."));
        } else {
            parts.push(chars_of("Tone: warm, calm, not jokey."));
        }
    } else {
        parts.push(chars_of("Tone: calm, plain, and restrained."));
    }
    if !policy.allow_humor {
        parts.push(chars_of("Do not use jokes or playful asides."));
    }
    if !policy.allow_initiative {
        parts.push(chars_of("Do not invent new agenda beyond the current turn."));
    }
    if policy.prefer_silence && mode == PromptMode::AmbientLine {
        parts.push(chars_of("If the event does not clearly help, return an empty response."));
    }
    assert(seqs_of(parts@) =~= policy_constraints(*policy, mode));
    let sep = chars_of(" ");
    let j = join_chars(&parts, &sep);
    string_of(&j)
}

/// The last `limit` messages (all of them where there are fewer; none for a zero limit).
pub open spec fn recent_window<A>(messages: Seq<A>, limit: usize) -> Seq<A> {
    if limit == 0 || messages.len() == 0 {
        Seq::empty()
    } else if messages.len() <= limit {
        messages
    } else {
        messages.skip(messages.len() - limit)
    }
}

pub fn select_recent_messages(messages: &[ChatMessage], limit: usize) -> (r: Vec<ChatMessage>)
    ensures
        r@ == recent_window(messages@, limit),
{
    if limit == 0 || messages.len() == 0 {
        return Vec::new();
    }
    let start = if messages.len() <= limit { 0 } else { messages.len() - limit };
    let mut r: Vec<ChatMessage> = Vec::new();
    let mut i: usize = start;
    while i < messages.len()
        invariant
            start <= i <= messages.len(),
            r@ == messages@.subrange(start as int, i as int),
        decreases messages.len() - i,
    {
        r.push(messages[i].duplicate());
        i = i + 1;
        assert(r@ =~= messages@.subrange(start as int, i as int));
    }
    assert(messages@.subrange(start as int, messages.len() as int) =~= recent_window(messages@, limit));
    r
}

/// "- role: text" for one recent message.
pub open spec fn context_line(message: ChatMessage, max_chars: usize) -> Seq<char> {
    "- "@ + spec_short_role_label(message.role@) + ": "@ + compact(message.content@, max_chars as nat)
}

pub open spec fn context_lines(messages: Seq<ChatMessage>, max_chars: usize) -> Seq<Seq<char>> {
    messages.map_values(|m: ChatMessage| context_line(m, max_chars))
}

/// "Recent context:" and a line per recent message, where there are any.
pub open spec fn spec_render_recent_context(
    messages: Seq<ChatMessage>,
    limit: usize,
    max_chars: usize,
) -> Option<Seq<char>> {
    let selected = recent_window(messages, limit);
    if selected.len() == 0 {
        None
    } else {
        Some("Recent context:\n"@ + join(context_lines(selected, max_chars), "\n"@))
    }
}

pub fn render_recent_context(messages: &[ChatMessage], limit: usize, max_chars: usize) -> (r: Option<String>)
    ensures
        match (r, spec_render_recent_context(messages@, limit, max_chars)) {
            (Some(a), Some(b)) => a@ == b,
            (None, None) => true,
            _ => false,
        },
{
    let selected = select_recent_messages(messages, limit);
    if selected.len() == 0 {
        return None;
    }
    let ghost lines_spec = context_lines(selected@, max_chars);
    let mut lines: Vec<Vec<char>> = Vec::new();
    let mut i: usize = 0;
    while i < selected.len()
        invariant
            i <= selected.len(),
            lines_spec == context_lines(selected@, max_chars),
            seqs_of(lines@) == lines_spec.take(i as int),
        decreases selected.len() - i,
    {
        let m = &selected[i];
        let mut line: Vec<char> = Vec::new();
        append_str(&mut line, "- ");
        append_str(&mut line, short_role_label(m.role.as_str()));
        append_str(&mut line, ": ");
        let cv = chars_of(m.content.as_str());
        let c = compact_chars(&cv, max_chars);
        append_chars(&mut line, &c);
        assert(line@ == context_line(selected@[i as int], max_chars));
        let ghost before = seqs_of(lines@);
        lines.push(line);
        assert(seqs_of(lines@) =~= before.push(lines_spec[i as int]));
        i = i + 1;
        assert(seqs_of(lines@) =~= lines_spec.take(i as int));
    }
    assert(lines_spec.take(selected.len() as int) =~= lines_spec);
    let sep = chars_of("\n");
    let body = join_chars(&lines, &sep);
    let mut out: Vec<char> = Vec::new();
    append_str(&mut out, "Recent context:\n");
    append_chars(&mut out, &body);
    Some(string_of(&out))
}


// ---------------------------------------------------------------------------
// Compiled prompts
// ---------------------------------------------------------------------------

/// A prompt for the local model.
#[derive(Debug, Clone)]
pub struct CompiledNanoPrompt {
    pub mode: PromptMode,
    pub prompt: String,
    pub max_output_tokens: Option<u32>,
}


// ---------------------------------------------------------------------------
// Memories in prompts
// ---------------------------------------------------------------------------

/// A durable memory as prompts show it: its kind and its text. Callers pass
/// memories in rank order (most relevant first).
#[derive(Debug, Clone)]
pub struct PromptMemory {
    pub kind: String,
    pub text: String,
}

/// A memory's text shortened for a prompt: white space collapsed; beyond
/// `max` characters it keeps `max - 1` of them and ends with an ellipsis.
pub open spec fn fact_text(text: Seq<char>, max: nat) -> Seq<char> {
    let n = collapse_ws(text);
    if n.len() <= max {
        n
    } else if max == 0 {
        seq![crate::text::ellipsis()]
    } else {
        n.take(max - 1).push(crate::text::ellipsis())
    }
}

pub fn fact_text_chars(v: &Vec<char>, max: usize) -> (r: Vec<char>)
    ensures
        r@ == fact_text(v@, max as nat),
{
    let n = collapse_ws_chars(v);
    if n.len() <= max {
        n
    } else if max == 0 {
        let mut t: Vec<char> = Vec::new();
        t.push('\u{2026}');
        assert(t@ =~= seq![crate::text::ellipsis()]);
        t
    } else {
        let mut t = slice_chars(&n, 0, max - 1);
        t.push('\u{2026}');
        assert(t@ =~= n@.take(max - 1).push(crate::text::ellipsis()));
        t
    }
}

/// "- [kind] text" for one memory.
pub open spec fn memory_line(m: PromptMemory, max_chars: usize) -> Seq<char> {
    "- ["@ + m.kind@ + "] "@ + compact(
        spec_strip_markdown(fact_text(m.text@, max_chars as nat)),
        max_chars as nat,
    )
}

/// The memories whose text is not an internal payload, in order.
pub open spec fn shown_memories(ms: Seq<PromptMemory>) -> Seq<PromptMemory>
    decreases ms.len(),
{
    if ms.len() == 0 {
        ms
    } else {
        let rest = shown_memories(ms.drop_last());
        if spec_looks_like_internal_payload(ms.last().text@) {
            rest
        } else {
            rest.push(ms.last())
        }
    }
}

/// The preamble and a line for each of the first `limit` shown memories.
pub open spec fn spec_render_selected_memories(
    preamble: Seq<char>,
    memories: Seq<PromptMemory>,
    limit: usize,
    max_chars: usize,
) -> Option<Seq<char>> {
    if limit == 0 {
        None
    } else {
        let selected = crate::memory::recall::take_at_most(shown_memories(memories), limit as int);
        if selected.len() == 0 {
            None
        } else {
            Some(
                preamble + "\nSelected memory:\n"@ + join(
                    selected.map_values(|m: PromptMemory| memory_line(m, max_chars)),
                    "\n"@,
                ),
            )
        }
    }
}

pub fn render_selected_memories(
    preamble: &str,
    memories: &[PromptMemory],
    limit: usize,
    max_chars: usize,
) -> (r: Option<String>)
    ensures
        match (r, spec_render_selected_memories(preamble@, memories@, limit, max_chars)) {
            (Some(a), Some(b)) => a@ == b,
            (None, None) => true,
            _ => false,
        },
{
    if limit == 0 {
        return None;
    }
    let ghost shown = shown_memories(memories@);
    let mut kept: Vec<usize> = Vec::new();
    let mut i: usize = 0;
    while i < memories.len()
        invariant
            i <= memories.len(),
            shown == shown_memories(memories@),
            kept@.len() == shown_memories(memories@.take(i as int)).len(),
            forall|j: int| 0 <= j < kept@.len() ==> (#[trigger] kept@[j]) < i && memories@[kept@[j] as int]
                == shown_memories(memories@.take(i as int))[j],
        decreases memories.len() - i,
    {
        assert(memories@.take(i + 1).drop_last() =~= memories@.take(i as int));
        assert(memories@.take(i + 1).last() == memories@[i as int]);
        if !looks_like_internal_payload(memories[i].text.as_str()) {
            kept.push(i);
        }
        i = i + 1;
    }
    assert(memories@.take(memories.len() as int) =~= memories@);
    let count = if kept.len() < limit { kept.len() } else { limit };
    if count == 0 {
        return None;
    }
    let ghost selected = crate::memory::recall::take_at_most(shown, limit as int);
    let ghost lines_spec = selected.map_values(|m: PromptMemory| memory_line(m, max_chars));
    assert(selected.len() == count);
    let mut lines: Vec<Vec<char>> = Vec::new();
    let mut k: usize = 0;
    while k < count
        invariant
            k <= count <= kept@.len(),
            count == selected.len(),
            shown == shown_memories(memories@),
            kept@.len() == shown.len(),
            forall|j: int| 0 <= j < kept@.len() ==> (#[trigger] kept@[j]) < memories@.len() && memories@[kept@[j] as int]
                == shown[j],
            selected == crate::memory::recall::take_at_most(shown, limit as int),
            lines_spec == selected.map_values(|m: PromptMemory| memory_line(m, max_chars)),
            seqs_of(lines@) == lines_spec.take(k as int),
        decreases count - k,
    {
        let m = &memories[kept[k]];
        assert(*m == shown[k as int]);
        assert(selected[k as int] == shown[k as int]);
        let mut line: Vec<char> = Vec::new();
        append_str(&mut line, "- [");
        append_str(&mut line, m.kind.as_str());
        append_str(&mut line, "] ");
        let tv = chars_of(m.text.as_str());
        let f = fact_text_chars(&tv, max_chars);
        let stripped = strip_markdown_chars(&f);
        let c = compact_chars(&stripped, max_chars);
        append_chars(&mut line, &c);
        assert(line@ == lines_spec[k as int]);
        let ghost before = seqs_of(lines@);
        lines.push(line);
        assert(seqs_of(lines@) =~= before.push(lines_spec[k as int]));
        k = k + 1;
        assert(seqs_of(lines@) =~= lines_spec.take(k as int));
    }
    assert(lines_spec.take(count as int) =~= lines_spec);
    let sep = chars_of("\n");
    let body = join_chars(&lines, &sep);
    let mut out: Vec<char> = Vec::new();
    append_str(&mut out, preamble);
    append_str(&mut out, "\nSelected memory:\n");
    append_chars(&mut out, &body);
    Some(string_of(&out))
}


// ---------------------------------------------------------------------------
// Task frames
// ---------------------------------------------------------------------------

/// What a beat's prompt may draw on.
#[derive(Debug, Clone, Copy)]
pub struct BeatPromptContext<'a> {
    pub input_source: Option<InputSource>,
    pub first_beat: Option<&'a str>,
    pub recent_messages: &'a [ChatMessage],
    pub semantic_memories: &'a [PromptMemory],
    pub context_level: Option<ContextLevel>,
    pub policy: &'a BehaviorPolicy,
    pub prefer_memory_facts: bool,
    pub include_tool_guidance: bool,
}

/// Everything one prompt is compiled from. An ambient event's payload is given
/// as its JSON text.
#[derive(Debug, Clone, Copy)]
pub struct PromptTaskFrame<'a> {
    pub mode: PromptMode,
    pub output_contract: PromptOutputContract,
    pub user_text: Option<&'a str>,
    pub source_text: Option<&'a str>,
    pub status_text: Option<&'a str>,
    pub event_type: Option<&'a str>,
    pub payload_json: Option<&'a str>,
    pub context: BeatPromptContext<'a>,
}

/// The mathematical form of a task frame.
pub struct FrameView {
    pub mode: PromptMode,
    pub output_contract: PromptOutputContract,
    pub user_text: Option<Seq<char>>,
    pub source_text: Option<Seq<char>>,
    pub status_text: Option<Seq<char>>,
    pub event_type: Option<Seq<char>>,
    pub payload_json: Option<Seq<char>>,
    pub input_source: Option<InputSource>,
    pub first_beat: Option<Seq<char>>,
    pub recent_messages: Seq<ChatMessage>,
    pub semantic_memories: Seq<PromptMemory>,
    pub context_level: Option<ContextLevel>,
    pub policy: BehaviorPolicy,
    pub prefer_memory_facts: bool,
    pub include_tool_guidance: bool,
}

impl<'a> View for PromptTaskFrame<'a> {
    type V = FrameView;

    open spec fn view(&self) -> FrameView {
        FrameView {
            mode: self.mode,
            output_contract: self.output_contract,
            user_text: opt_view(self.user_text),
            source_text: opt_view(self.source_text),
            status_text: opt_view(self.status_text),
            event_type: opt_view(self.event_type),
            payload_json: opt_view(self.payload_json),
            input_source: self.context.input_source,
            first_beat: opt_view(self.context.first_beat),
            recent_messages: self.context.recent_messages@,
            semantic_memories: self.context.semantic_memories@,
            context_level: self.context.context_level,
            policy: *self.context.policy,
            prefer_memory_facts: self.context.prefer_memory_facts,
            include_tool_guidance: self.context.include_tool_guidance,
        }
    }
}

/// A field that a task frame lacked.
#[derive(Debug, Clone, Copy, PartialEq, Eq, Structural)]
pub enum FrameField {
    UserText,
    InputSource,
    ContextLevel,
    EventType,
    PayloadJson,
    StatusText,
}

/// Why a prompt could not be compiled.
#[derive(Debug, Clone, Copy, PartialEq, Eq, Structural)]
pub enum PromptError {
    /// A nano prompt was asked for with another output than plain text.
    PlainTextRequired(PromptMode),
    /// A cloud request was asked for with another output than the JSON envelope.
    JsonEnvelopeRequired(PromptMode),
    /// The frame for a mode lacked a field that the mode needs.
    MissingField(PromptMode, FrameField),
    /// The nano compiler has no rule for the mode.
    NanoUnsupported(PromptMode),
    /// The cloud compiler has no rule for the mode.
    CloudUnsupported(PromptMode),
    /// Task frames of the mode are not compiled.
    NotImplemented(PromptMode),
    /// A nano prompt was expected but a cloud request came out.
    CompiledAsCloud(PromptMode),
    /// A cloud request was expected but a nano prompt came out.
    CompiledAsNano(PromptMode),
}

/// A compiled task frame: a nano prompt or a cloud request.
#[derive(Debug, Clone)]
pub enum CompiledPromptArtifact {
    Nano(CompiledNanoPrompt),
    Cloud(ModelRequest),
}

impl CompiledPromptArtifact {
    pub fn expect_nano(self, mode: PromptMode) -> (r: Result<CompiledNanoPrompt, PromptError>)
        ensures
            match self {
                CompiledPromptArtifact::Nano(p) => r == Ok::<CompiledNanoPrompt, PromptError>(p),
                CompiledPromptArtifact::Cloud(_) => r == Err::<CompiledNanoPrompt, PromptError>(
                    PromptError::CompiledAsCloud(mode),
                ),
            },
    {
        match self {
            CompiledPromptArtifact::Nano(prompt) => Ok(prompt),
            CompiledPromptArtifact::Cloud(_) => Err(PromptError::CompiledAsCloud(mode)),
        }
    }

    pub fn expect_cloud(self, mode: PromptMode) -> (r: Result<ModelRequest, PromptError>)
        ensures
            match self {
                CompiledPromptArtifact::Cloud(c) => r == Ok::<ModelRequest, PromptError>(c),
                CompiledPromptArtifact::Nano(_) => r == Err::<ModelRequest, PromptError>(
                    PromptError::CompiledAsNano(mode),
                ),
            },
    {
        match self {
            CompiledPromptArtifact::Cloud(request) => Ok(request),
            CompiledPromptArtifact::Nano(_) => Err(PromptError::CompiledAsNano(mode)),
        }
    }
}

/// The sections every prompt opens with: identity, continuity, the mode's
/// instruction and the tone constraints.
pub open spec fn head_sections(
    shared: SharedView,
    mode_cfg: ModeConfigView,
    policy: BehaviorPolicy,
    mode: PromptMode,
) -> Seq<Option<Seq<char>>> {
    seq![
        Some(shared.assistant_identity),
        Some(shared.continuity_instruction),
        Some(mode_cfg.instruction),
        Some(spec_render_policy_constraints(policy, mode)),
    ]
}

pub open spec fn opt_view(o: Option<&str>) -> Option<Seq<char>> {
    match o {
        Some(s) => Some(s@),
        None => None,
    }
}

/// `First beat already shown: "..."` where a first beat that is not blank was shown.
pub open spec fn first_beat_line(first_beat: Option<Seq<char>>) -> Option<Seq<char>> {
    match first_beat {
        Some(fb) => if trim(fb).len() > 0 {
            Some("First beat already shown: \""@ + compact(fb, 120) + "\""@)
        } else {
            None
        },
        None => None,
    }
}

/// The text of the nano prompt for a frame, or why there is none.
pub open spec fn spec_nano_prompt(config: PromptConfig, frame: FrameView) -> Result<Seq<char>, PromptError> {
    let mode = frame.mode;
    let m = config.spec_mode_config(mode);
    let shared = config.spec_shared_config();
    let head = head_sections(shared, m, frame.policy, mode);
    if frame.output_contract.spec_format() != PromptOutputFormat::PlainText {
        Err(PromptError::PlainTextRequired(mode))
    } else {
        match mode {
            PromptMode::FirstBeat => match (frame.user_text, frame.input_source) {
                (None, _) => Err(PromptError::MissingField(mode, FrameField::UserText)),
                (Some(_), None) => Err(PromptError::MissingField(mode, FrameField::InputSource)),
                (Some(user), Some(source)) => Ok(
                    spec_join_sections(
                        head + seq![
                            length_line(m.max_words),
                            spec_render_recent_context(frame.recent_messages, m.max_context_messages, 140),
                            Some(
                                "User input ("@ + source.spec_name() + "): "@ + compact(user, 240),
                            ),
                        ],
                    ),
                ),
            },
            PromptMode::NanoReply => match (frame.user_text, frame.context_level) {
                (None, _) => Err(PromptError::MissingField(mode, FrameField::UserText)),
                (Some(_), None) => Err(PromptError::MissingField(mode, FrameField::ContextLevel)),
                (Some(user), Some(level)) => Ok(
                    spec_join_sections(
                        head + seq![
                            length_line(m.max_words),
                            first_beat_line(frame.first_beat),
                            Some("Previous Context setting: "@ + level.spec_name() + "."@),
                            spec_render_recent_context(frame.recent_messages, m.max_context_messages, 180),
                            spec_render_selected_memories(
                                shared.memory_preamble,
                                frame.semantic_memories,
                                m.max_memory_items,
                                140,
                            ),
                            Some("User input: "@ + compact(user, 240)),
                        ],
                    ),
                ),
            },
            PromptMode::AmbientLine => match (frame.event_type, frame.payload_json) {
                (None, _) => Err(PromptError::MissingField(mode, FrameField::EventType)),
                (Some(_), None) => Err(PromptError::MissingField(mode, FrameField::PayloadJson)),
                (Some(event), Some(payload)) => Ok(
                    spec_join_sections(
                        head + seq![
                            length_line(m.max_words),
                            Some("Event: "@ + event),
                            Some("Payload: "@ + compact(payload, 220)),
                            spec_render_recent_context(frame.recent_messages, m.max_context_messages, 140),
                        ],
                    ),
                ),
            },
            PromptMode::ToolStatusExplanation | PromptMode::ErrorExplanation => match frame.status_text {
                None => Err(PromptError::MissingField(mode, FrameField::StatusText)),
                Some(status) => Ok(
                    spec_join_sections(
                        head + seq![
                            length_line(m.max_words),
                            spec_render_recent_context(frame.recent_messages, m.max_context_messages, 120),
                            Some("Status: "@ + compact(status, 180)),
                        ],
                    ),
                ),
            },
            _ => Err(PromptError::NanoUnsupported(mode)),
        }
    }
}

/// The closing system message of a cloud request that follows a shown first beat.
pub open spec fn continue_after_line(first_beat: Seq<char>) -> Seq<char> {
    "The first visible beat already shown to the user is: \""@ + compact(first_beat, 160)
        + "\". Continue after it without repeating it, without opening with a new greeting or acknowledgment, and without recapping what was already said."@
}

pub open spec fn system_message(content: Seq<char>) -> MessageView {
    MessageView { role: "system"@, content }
}

/// The recent messages as cloud messages, each text shortened to `max` characters.
pub open spec fn transcript_messages(messages: Seq<ChatMessage>, max: usize) -> Seq<MessageView> {
    messages.map_values(
        |m: ChatMessage|
            MessageView { role: spec_map_message_role(m.role@), content: compact(m.content@, max as nat) },
    )
}

pub open spec fn optional_message(content: Option<Seq<char>>) -> Seq<MessageView> {
    match content {
        Some(c) => seq![system_message(c)],
        None => Seq::empty(),
    }
}

/// The messages of the cloud request for a frame, or why there are none.
pub open spec fn spec_cloud_request(config: PromptConfig, frame: FrameView) -> Result<Seq<MessageView>, PromptError> {
    let mode = frame.mode;
    let m = config.spec_mode_config(mode);
    let shared = config.spec_shared_config();
    if frame.output_contract.spec_format() != PromptOutputFormat::JsonEnvelope {
        Err(PromptError::JsonEnvelopeRequired(mode))
    } else if mode != PromptMode::CloudReasoning {
        Err(PromptError::CloudUnsupported(mode))
    } else {
        match frame.user_text {
            None => Err(PromptError::MissingField(mode, FrameField::UserText)),
            Some(user) => Ok(
                seq![
                    system_message(
                        spec_join_sections(head_sections(shared, m, frame.policy, mode)),
                    ),
                ] + optional_message(
                    spec_render_selected_memories(
                        shared.memory_preamble,
                        frame.semantic_memories,
                        m.max_memory_items,
                        160,
                    ),
                ) + (if frame.include_tool_guidance {
                    seq![system_message(shared.tool_instructions)]
                } else {
                    Seq::empty()
                }) + seq![system_message(shared.response_contract)] + (match frame.first_beat {
                    Some(fb) => if trim(fb).len() > 0 {
                        seq![system_message(continue_after_line(fb))]
                    } else {
                        Seq::empty()
                    },
                    None => Seq::empty(),
                }) + transcript_messages(
                    recent_window(frame.recent_messages, m.max_context_messages),
                    320,
                ) + seq![MessageView { role: "user"@, content: compact(user, 320) }],
            ),
        }
    }
}


// ---------------------------------------------------------------------------
// The translator
// ---------------------------------------------------------------------------

pub open spec fn ostr(o: Option<String>) -> Option<Seq<char>> {
    match o {
        Some(s) => Some(s@),
        None => None,
    }
}

/// Compiles turns into prompts under one configuration.
pub struct PromptTranslator {
    config: PromptConfig,
}

fn head_section_values(
    shared: &PromptSharedConfig,
    m: &PromptModeConfig,
    policy: &BehaviorPolicy,
    mode: PromptMode,
) -> (r: Vec<Option<String>>)
    ensures
        opt_strs_view(r@) == head_sections(shared@, m@, *policy, mode),
{
    let mut v: Vec<Option<String>> = Vec::new();
    v.push(Some(shared.assistant_identity.clone()));
    v.push(Some(shared.continuity_instruction.clone()));
    v.push(Some(m.instruction.clone()));
    v.push(Some(render_policy_constraints(policy, mode)));
    assert(opt_strs_view(v@) =~= head_sections(shared@, m@, *policy, mode));
    v
}

fn push_section(v: &mut Vec<Option<String>>, section: Option<String>)
    ensures
        opt_strs_view(final(v)@) == opt_strs_view(old(v)@).push(ostr(section)),
{
    v.push(section);
    assert(opt_strs_view(v@) =~= opt_strs_view(old(v)@).push(ostr(section)));
}

fn recent_context_section(messages: &[ChatMessage], limit: usize, max_chars: usize) -> (r: Option<String>)
    ensures
        ostr(r) == spec_render_recent_context(messages@, limit, max_chars),
{
    render_recent_context(messages, limit, max_chars)
}

fn memories_section(preamble: &str, memories: &[PromptMemory], limit: usize, max_chars: usize) -> (r: Option<
    String,
>)
    ensures
        ostr(r) == spec_render_selected_memories(preamble@, memories@, limit, max_chars),
{
    render_selected_memories(preamble, memories, limit, max_chars)
}

fn length_section(max_words: Option<usize>) -> (r: Option<String>)
    ensures
        ostr(r) == length_line(max_words),
{
    length_line_text(max_words)
}

fn labelled(label: &str, text: &str, limit: usize) -> (r: String)
    ensures
        r@ == label@ + compact(text@, limit as nat),
{
    let mut out: Vec<char> = Vec::new();
    append_str(&mut out, label);
    let c = compact_text(text, limit);
    append_str(&mut out, c.as_str());
    string_of(&out)
}

fn first_beat_section(first_beat: Option<&str>) -> (r: Option<String>)
    ensures
        ostr(r) == first_beat_line(opt_view(first_beat)),
{
    match first_beat {
        Some(fb) => if is_blank_str(fb) {
            None
        } else {
            let mut out: Vec<char> = Vec::new();
            append_str(&mut out, "First beat already shown: \"");
            let c = compact_text(fb, 120);
            append_str(&mut out, c.as_str());
            append_str(&mut out, "\"");
            Some(string_of(&out))
        },
        None => None,
    }
}

fn continue_after_text(first_beat: &str) -> (r: String)
    ensures
        r@ == continue_after_line(first_beat@),
{
    let mut out: Vec<char> = Vec::new();
    append_str(&mut out, "The first visible beat already shown to the user is: \"");
    let c = compact_text(first_beat, 160);
    append_str(&mut out, c.as_str());
    append_str(
        &mut out,
        "\". Continue after it without repeating it, without opening with a new greeting or acknowledgment, and without recapping what was already said.",
    );
    string_of(&out)
}

pub open spec fn messages_view(v: Seq<ModelMessage>) -> Seq<MessageView> {
    v.map_values(|m: ModelMessage| m@)
}

fn push_message(v: &mut Vec<ModelMessage>, role: &str, content: String)
    ensures
        messages_view(final(v)@) == messages_view(old(v)@).push(
            MessageView { role: role@, content: content@ },
        ),
{
    let m = message(role, content);
    v.push(m);
    assert(messages_view(v@) =~= messages_view(old(v)@).push(
        MessageView { role: role@, content: content@ },
    ));
}

fn push_transcript_messages(v: &mut Vec<ModelMessage>, messages: &[ChatMessage], limit: usize, max: usize)
    ensures
        messages_view(final(v)@) == messages_view(old(v)@) + transcript_messages(
            recent_window(messages@, limit),
            max,
        ),
{
    let selected = select_recent_messages(messages, limit);
    let ghost tm = transcript_messages(selected@, max);
    let ghost before = messages_view(v@);
    let mut i: usize = 0;
    while i < selected.len()
        invariant
            i <= selected.len(),
            tm == transcript_messages(selected@, max),
            messages_view(v@) == before + tm.take(i as int),
        decreases selected.len() - i,
    {
        let role = map_message_role(selected[i].role.as_str());
        let content = compact_text(selected[i].content.as_str(), max);
        let ghost prev = messages_view(v@);
        v.push(ModelMessage { role, content });
        assert(messages_view(v@) =~= prev.push(tm[i as int]));
        i = i + 1;
        assert(messages_view(v@) =~= before + tm.take(i as int));
    }
    assert(tm.take(selected.len() as int) =~= tm);
}

impl PromptTranslator {
    pub closed spec fn spec_config(&self) -> PromptConfig {
        self.config
    }

    pub fn new(config: PromptConfig) -> (r: Self)
        ensures
            r.spec_config() == config,
    {
        PromptTranslator { config }
    }

    pub fn config(&self) -> (r: &PromptConfig)
        ensures
            *r == self.spec_config(),
    {
        &self.config
    }

    /// The nano prompt for a frame.
    pub fn build_nano_prompt_from_task_frame(&self, frame: &PromptTaskFrame) -> (r: Result<
        CompiledNanoPrompt,
        PromptError,
    >)
        ensures
            match (r, spec_nano_prompt(self.spec_config(), frame@)) {
                (Ok(p), Ok(t)) => p.prompt@ == t && p.mode == frame.mode && p.max_output_tokens
                    == self.spec_config().spec_mode_config(frame.mode).max_output_tokens,
                (Err(e), Err(f)) => e == f,
                _ => false,
            },
    {
        let mode = frame.mode;
        if frame.output_contract.as_format() != PromptOutputFormat::PlainText {
            return Err(PromptError::PlainTextRequired(mode));
        }
        let m = self.config.mode_config(mode);
        let shared = self.config.shared_config();
        let ctx = &frame.context;
        let mut sections = head_section_values(&shared, &m, ctx.policy, mode);
        let ghost head = opt_strs_view(sections@);
        match mode {
            PromptMode::FirstBeat => {
                let user = match frame.user_text {
                    Some(u) => u,
                    None => return Err(PromptError::MissingField(mode, FrameField::UserText)),
                };
                let source = match ctx.input_source {
                    Some(s) => s,
                    None => return Err(PromptError::MissingField(mode, FrameField::InputSource)),
                };
                push_section(&mut sections, length_section(m.max_words));
                push_section(
                    &mut sections,
                    recent_context_section(ctx.recent_messages, m.max_context_messages, 140),
                );
                let mut line: Vec<char> = Vec::new();
                append_str(&mut line, "User input (");
                append_str(&mut line, source.as_str());
                append_str(&mut line, "): ");
                let c = compact_text(user, 240);
                append_str(&mut line, c.as_str());
                push_section(&mut sections, Some(string_of(&line)));
                assert(opt_strs_view(sections@) =~= head + seq![
                    length_line(m@.max_words),
                    spec_render_recent_context(ctx.recent_messages@, m@.max_context_messages, 140),
                    Some("User input ("@ + source.spec_name() + "): "@ + compact(user@, 240)),
                ]);
            },
            PromptMode::NanoReply => {
                let user = match frame.user_text {
                    Some(u) => u,
                    None => return Err(PromptError::MissingField(mode, FrameField::UserText)),
                };
                let level = match ctx.context_level {
                    Some(l) => l,
                    None => return Err(PromptError::MissingField(mode, FrameField::ContextLevel)),
                };
                push_section(&mut sections, length_section(m.max_words));
                push_section(&mut sections, first_beat_section(ctx.first_beat));
                let mut line: Vec<char> = Vec::new();
                append_str(&mut line, "Previous Context setting: ");
                append_str(&mut line, level.as_str());
                append_str(&mut line, ".");
                push_section(&mut sections, Some(string_of(&line)));
                push_section(
                    &mut sections,
                    recent_context_section(ctx.recent_messages, m.max_context_messages, 180),
                );
                push_section(
                    &mut sections,
                    memories_section(
                        shared.memory_preamble.as_str(),
                        ctx.semantic_memories,
                        m.max_memory_items,
                        140,
                    ),
                );
                push_section(&mut sections, Some(labelled("User input: ", user, 240)));
                assert(opt_strs_view(sections@) =~= head + seq![
                    length_line(m@.max_words),
                    first_beat_line(opt_view(ctx.first_beat)),
                    Some("Previous Context setting: "@ + level.spec_name() + "."@),
                    spec_render_recent_context(ctx.recent_messages@, m@.max_context_messages, 180),
                    spec_render_selected_memories(
                        shared@.memory_preamble,
                        ctx.semantic_memories@,
                        m@.max_memory_items,
                        140,
                    ),
                    Some("User input: "@ + compact(user@, 240)),
                ]);
            },
            PromptMode::AmbientLine => {
                let event = match frame.event_type {
                    Some(e) => e,
                    None => return Err(PromptError::MissingField(mode, FrameField::EventType)),
                };
                let payload = match frame.payload_json {
                    Some(p) => p,
                    None => return Err(PromptError::MissingField(mode, FrameField::PayloadJson)),
                };
                push_section(&mut sections, length_section(m.max_words));
                let mut line: Vec<char> = Vec::new();
                append_str(&mut line, "Event: ");
                append_str(&mut line, event);
                push_section(&mut sections, Some(string_of(&line)));
                push_section(&mut sections, Some(labelled("Payload: ", payload, 220)));
                push_section(
                    &mut sections,
                    recent_context_section(ctx.recent_messages, m.max_context_messages, 140),
                );
                assert(opt_strs_view(sections@) =~= head + seq![
                    length_line(m@.max_words),
                    Some("Event: "@ + event@),
                    Some("Payload: "@ + compact(payload@, 220)),
                    spec_render_recent_context(ctx.recent_messages@, m@.max_context_messages, 140),
                ]);
            },
            PromptMode::ToolStatusExplanation | PromptMode::ErrorExplanation => {
                let status = match frame.status_text {
                    Some(st) => st,
                    None => return Err(PromptError::MissingField(mode, FrameField::StatusText)),
                };
                push_section(&mut sections, length_section(m.max_words));
                push_section(
                    &mut sections,
                    recent_context_section(ctx.recent_messages, m.max_context_messages, 120),
                );
                push_section(&mut sections, Some(labelled("Status: ", status, 180)));
                assert(opt_strs_view(sections@) =~= head + seq![
                    length_line(m@.max_words),
                    spec_render_recent_context(ctx.recent_messages@, m@.max_context_messages, 120),
                    Some("Status: "@ + compact(status@, 180)),
                ]);
            },
            _ => {
                return Err(PromptError::NanoUnsupported(mode));
            },
        }
        let max_output_tokens = m.max_output_tokens;
        let prompt = join_sections(sections);
        Ok(CompiledNanoPrompt { mode, prompt, max_output_tokens })
    }

    /// The cloud request for a frame.
    pub fn build_cloud_request_from_task_frame(&self, frame: &PromptTaskFrame) -> (r: Result<
        ModelRequest,
        PromptError,
    >)
        ensures
            match (r, spec_cloud_request(self.spec_config(), frame@)) {
                (Ok(req), Ok(ms)) => req@ == ms,
                (Err(e), Err(f)) => e == f,
                _ => false,
            },
    {
        let mode = frame.mode;
        if frame.output_contract.as_format() != PromptOutputFormat::JsonEnvelope {
            return Err(PromptError::JsonEnvelopeRequired(mode));
        }
        if mode != PromptMode::CloudReasoning {
            return Err(PromptError::CloudUnsupported(mode));
        }
        let user = match frame.user_text {
            Some(u) => u,
            None => return Err(PromptError::MissingField(mode, FrameField::UserText)),
        };
        let m = self.config.mode_config(mode);
        let shared = self.config.shared_config();
        let ctx = &frame.context;
        let head = head_section_values(&shared, &m, ctx.policy, mode);
        let mut messages: Vec<ModelMessage> = Vec::new();
        push_message(&mut messages, "system", join_sections(head));
        let ghost after_head = messages_view(messages@);
        match memories_section(
            shared.memory_preamble.as_str(),
            ctx.semantic_memories,
            m.max_memory_items,
            160,
        ) {
            Some(block) => push_message(&mut messages, "system", block),
            None => {},
        }
        let ghost after_memory = messages_view(messages@);
        if ctx.include_tool_guidance {
            push_message(&mut messages, "system", shared.tool_instructions.clone());
        }
        let ghost after_tools = messages_view(messages@);
        push_message(&mut messages, "system", shared.response_contract.clone());
        let ghost after_contract = messages_view(messages@);
        match ctx.first_beat {
            Some(fb) => if !is_blank_str(fb) {
                push_message(&mut messages, "system", continue_after_text(fb));
            },
            None => {},
        }
        let ghost after_first = messages_view(messages@);
        push_transcript_messages(&mut messages, ctx.recent_messages, m.max_context_messages, 320);
        push_message(&mut messages, "user", compact_text(user, 320));
        let r = ModelRequest { messages };
        proof {
            reveal_strlit("system");
            reveal_strlit("user");
        }
        assert(r@ =~= messages_view(r.messages@));
        Ok(r)
    }
}


/// Whether a compiled artifact is what the frame's mode calls for.
pub open spec fn artifact_matches(
    config: PromptConfig,
    frame: FrameView,
    r: Result<CompiledPromptArtifact, PromptError>,
) -> bool {
    match frame.mode {
        PromptMode::FirstBeat | PromptMode::NanoReply | PromptMode::AmbientLine
        | PromptMode::ToolStatusExplanation | PromptMode::ErrorExplanation => match (
            r,
            spec_nano_prompt(config, frame),
        ) {
            (Ok(CompiledPromptArtifact::Nano(p)), Ok(t)) => p.prompt@ == t && p.mode == frame.mode
                && p.max_output_tokens == config.spec_mode_config(frame.mode).max_output_tokens,
            (Err(e), Err(f)) => e == f,
            _ => false,
        },
        PromptMode::CloudReasoning => match (r, spec_cloud_request(config, frame)) {
            (Ok(CompiledPromptArtifact::Cloud(c)), Ok(ms)) => c@ == ms,
            (Err(e), Err(f)) => e == f,
            _ => false,
        },
        _ => r == Err::<CompiledPromptArtifact, PromptError>(PromptError::NotImplemented(frame.mode)),
    }
}

/// A frame compiled where a nano prompt is expected: the nano modes give their
/// prompt; cloud reasoning, where it compiles, gives the wrong artifact; other
/// modes are not compiled.
pub open spec fn spec_nano_via_frame(config: PromptConfig, frame: FrameView) -> Result<Seq<char>, PromptError> {
    match frame.mode {
        PromptMode::FirstBeat | PromptMode::NanoReply | PromptMode::AmbientLine
        | PromptMode::ToolStatusExplanation | PromptMode::ErrorExplanation => spec_nano_prompt(
            config,
            frame,
        ),
        PromptMode::CloudReasoning => match spec_cloud_request(config, frame) {
            Ok(_) => Err(PromptError::CompiledAsCloud(frame.mode)),
            Err(e) => Err(e),
        },
        _ => Err(PromptError::NotImplemented(frame.mode)),
    }
}

/// Whether a nano prompt is the one compiled from the frame.
pub open spec fn nano_result_matches(
    config: PromptConfig,
    frame: FrameView,
    r: Result<CompiledNanoPrompt, PromptError>,
) -> bool {
    match (r, spec_nano_via_frame(config, frame)) {
        (Ok(p), Ok(t)) => p.prompt@ == t && p.mode == frame.mode && p.max_output_tokens
            == config.spec_mode_config(frame.mode).max_output_tokens,
        (Err(e), Err(f)) => e == f,
        _ => false,
    }
}

pub struct FirstBeatTranslationRequest<'a> {
    pub user_text: &'a str,
    pub input_source: InputSource,
    pub recent_messages: &'a [ChatMessage],
    pub policy: &'a BehaviorPolicy,
}

pub struct NanoReplyTranslationRequest<'a> {
    pub user_text: &'a str,
    pub first_beat: &'a str,
    pub recent_messages: &'a [ChatMessage],
    pub semantic_memories: &'a [PromptMemory],
    pub context_level: ContextLevel,
    pub policy: &'a BehaviorPolicy,
    pub prefer_memory_facts: bool,
}

pub struct CloudReasoningTranslationRequest<'a> {
    pub user_text: &'a str,
    pub first_beat: &'a str,
    pub recent_messages: &'a [ChatMessage],
    pub semantic_memories: &'a [PromptMemory],
    pub policy: &'a BehaviorPolicy,
    pub include_tool_guidance: bool,
}

pub struct AmbientLineTranslationRequest<'a> {
    pub event_type: &'a str,
    pub payload_json: &'a str,
    pub recent_messages: &'a [ChatMessage],
    pub policy: &'a BehaviorPolicy,
}

pub struct StatusExplanationTranslationRequest<'a> {
    pub status_text: &'a str,
    pub recent_messages: &'a [ChatMessage],
    pub policy: &'a BehaviorPolicy,
}

/// The frame of a request whose only inputs are the mode's own.
pub open spec fn plain_frame(
    mode: PromptMode,
    output_contract: PromptOutputContract,
    user_text: Option<Seq<char>>,
    status_text: Option<Seq<char>>,
    event_type: Option<Seq<char>>,
    payload_json: Option<Seq<char>>,
    input_source: Option<InputSource>,
    first_beat: Option<Seq<char>>,
    recent_messages: Seq<ChatMessage>,
    semantic_memories: Seq<PromptMemory>,
    context_level: Option<ContextLevel>,
    policy: BehaviorPolicy,
    prefer_memory_facts: bool,
    include_tool_guidance: bool,
) -> FrameView {
    FrameView {
        mode,
        output_contract,
        user_text,
        source_text: None,
        status_text,
        event_type,
        payload_json,
        input_source,
        first_beat,
        recent_messages,
        semantic_memories,
        context_level,
        policy,
        prefer_memory_facts,
        include_tool_guidance,
    }
}

pub open spec fn first_beat_frame(request: FirstBeatTranslationRequest) -> FrameView {
    plain_frame(
        PromptMode::FirstBeat,
        PromptOutputContract::PlainText,
        Some(request.user_text@),
        None,
        None,
        None,
        Some(request.input_source),
        None,
        request.recent_messages@,
        Seq::empty(),
        None,
        *request.policy,
        false,
        false,
    )
}

pub open spec fn nano_reply_frame(request: NanoReplyTranslationRequest) -> FrameView {
    plain_frame(
        PromptMode::NanoReply,
        PromptOutputContract::PlainText,
        Some(request.user_text@),
        None,
        None,
        None,
        None,
        Some(request.first_beat@),
        request.recent_messages@,
        request.semantic_memories@,
        Some(request.context_level),
        *request.policy,
        request.prefer_memory_facts,
        false,
    )
}

pub open spec fn cloud_reasoning_frame(request: CloudReasoningTranslationRequest) -> FrameView {
    plain_frame(
        PromptMode::CloudReasoning,
        PromptOutputContract::JsonEnvelope,
        Some(request.user_text@),
        None,
        None,
        None,
        None,
        Some(request.first_beat@),
        request.recent_messages@,
        request.semantic_memories@,
        None,
        *request.policy,
        false,
        request.include_tool_guidance,
    )
}

pub open spec fn ambient_frame(request: AmbientLineTranslationRequest) -> FrameView {
    plain_frame(
        PromptMode::AmbientLine,
        PromptOutputContract::PlainText,
        None,
        None,
        Some(request.event_type@),
        Some(request.payload_json@),
        None,
        None,
        request.recent_messages@,
        Seq::empty(),
        None,
        *request.policy,
        false,
        false,
    )
}

pub open spec fn status_frame(
    mode: PromptMode,
    status_text: Seq<char>,
    recent_messages: Seq<ChatMessage>,
    policy: BehaviorPolicy,
) -> FrameView {
    plain_frame(
        mode,
        PromptOutputContract::PlainText,
        None,
        Some(status_text),
        None,
        None,
        None,
        None,
        recent_messages,
        Seq::empty(),
        None,
        policy,
        false,
        false,
    )
}

impl PromptTranslator {
    /// Compiles a frame: the nano modes to a nano prompt, cloud reasoning to a
    /// cloud request; other modes are not compiled from frames.
    pub fn compile_task_frame(&self, frame: &PromptTaskFrame) -> (r: Result<CompiledPromptArtifact, PromptError>)
        ensures
            artifact_matches(self.spec_config(), frame@, r),
    {
        match frame.mode {
            PromptMode::FirstBeat | PromptMode::NanoReply | PromptMode::AmbientLine
            | PromptMode::ToolStatusExplanation | PromptMode::ErrorExplanation => {
                match self.build_nano_prompt_from_task_frame(frame) {
                    Ok(p) => Ok(CompiledPromptArtifact::Nano(p)),
                    Err(e) => Err(e),
                }
            },
            PromptMode::CloudReasoning => match self.build_cloud_request_from_task_frame(frame) {
                Ok(c) => Ok(CompiledPromptArtifact::Cloud(c)),
                Err(e) => Err(e),
            },
            other => Err(PromptError::NotImplemented(other)),
        }
    }

    fn compile_nano_frame(&self, frame: &PromptTaskFrame) -> (r: Result<CompiledNanoPrompt, PromptError>)
        ensures
            nano_result_matches(self.spec_config(), frame@, r),
    {
        let mode = frame.mode;
        match self.compile_task_frame(frame) {
            Ok(artifact) => artifact.expect_nano(mode),
            Err(e) => Err(e),
        }
    }

    /// The first beat's prompt.
    pub fn compile_first_beat(&self, request: &FirstBeatTranslationRequest) -> (r: Result<
        CompiledNanoPrompt,
        PromptError,
    >)
        ensures
            nano_result_matches(self.spec_config(), first_beat_frame(*request), r),
    {
        let empty: Vec<PromptMemory> = Vec::new();
        let frame = PromptTaskFrame {
            mode: PromptMode::FirstBeat,
            output_contract: PromptOutputContract::PlainText,
            user_text: Some(request.user_text),
            source_text: None,
            status_text: None,
            event_type: None,
            payload_json: None,
            context: BeatPromptContext {
                input_source: Some(request.input_source),
                first_beat: None,
                recent_messages: request.recent_messages,
                semantic_memories: empty.as_slice(),
                context_level: None,
                policy: request.policy,
                prefer_memory_facts: false,
                include_tool_guidance: false,
            },
        };
        assert(frame@ == first_beat_frame(*request));
        self.compile_nano_frame(&frame)
    }

    /// The local model's full reply prompt.
    pub fn compile_nano_reply(&self, request: &NanoReplyTranslationRequest) -> (r: Result<
        CompiledNanoPrompt,
        PromptError,
    >)
        ensures
            nano_result_matches(self.spec_config(), nano_reply_frame(*request), r),
    {
        let frame = PromptTaskFrame {
            mode: PromptMode::NanoReply,
            output_contract: PromptOutputContract::PlainText,
            user_text: Some(request.user_text),
            source_text: None,
            status_text: None,
            event_type: None,
            payload_json: None,
            context: BeatPromptContext {
                input_source: None,
                first_beat: Some(request.first_beat),
                recent_messages: request.recent_messages,
                semantic_memories: request.semantic_memories,
                context_level: Some(request.context_level),
                policy: request.policy,
                prefer_memory_facts: request.prefer_memory_facts,
                include_tool_guidance: false,
            },
        };
        assert(frame@ == nano_reply_frame(*request));
        self.compile_nano_frame(&frame)
    }

    /// The cloud request that continues after the first beat.
    pub fn compile_cloud_reasoning(&self, request: &CloudReasoningTranslationRequest) -> (r: Result<
        ModelRequest,
        PromptError,
    >)
        ensures
            match (r, spec_cloud_request(self.spec_config(), cloud_reasoning_frame(*request))) {
                (Ok(c), Ok(ms)) => c@ == ms,
                (Err(e), Err(f)) => e == f,
                _ => false,
            },
    {
        let frame = PromptTaskFrame {
            mode: PromptMode::CloudReasoning,
            output_contract: PromptOutputContract::JsonEnvelope,
            user_text: Some(request.user_text),
            source_text: None,
            status_text: None,
            event_type: None,
            payload_json: None,
            context: BeatPromptContext {
                input_source: None,
                first_beat: Some(request.first_beat),
                recent_messages: request.recent_messages,
                semantic_memories: request.semantic_memories,
                context_level: None,
                policy: request.policy,
                prefer_memory_facts: false,
                include_tool_guidance: request.include_tool_guidance,
            },
        };
        assert(frame@ == cloud_reasoning_frame(*request));
        match self.compile_task_frame(&frame) {
            Ok(artifact) => artifact.expect_cloud(PromptMode::CloudReasoning),
            Err(e) => Err(e),
        }
    }

    /// The prompt for an ambient line.
    pub fn compile_ambient_line(&self, request: &AmbientLineTranslationRequest) -> (r: Result<
        CompiledNanoPrompt,
        PromptError,
    >)
        ensures
            nano_result_matches(self.spec_config(), ambient_frame(*request), r),
    {
        let empty: Vec<PromptMemory> = Vec::new();
        let frame = PromptTaskFrame {
            mode: PromptMode::AmbientLine,
            output_contract: PromptOutputContract::PlainText,
            user_text: None,
            source_text: None,
            status_text: None,
            event_type: Some(request.event_type),
            payload_json: Some(request.payload_json),
            context: BeatPromptContext {
                input_source: None,
                first_beat: None,
                recent_messages: request.recent_messages,
                semantic_memories: empty.as_slice(),
                context_level: None,
                policy: request.policy,
                prefer_memory_facts: false,
                include_tool_guidance: false,
            },
        };
        assert(frame@ == ambient_frame(*request));
        self.compile_nano_frame(&frame)
    }

    /// A one-line explanation in the given mode.
    pub fn compile_single_line_explanation(
        &self,
        mode_key: PromptMode,
        status_text: &str,
        recent_messages: &[ChatMessage],
        policy: &BehaviorPolicy,
    ) -> (r: Result<CompiledNanoPrompt, PromptError>)
        ensures
            nano_result_matches(
                self.spec_config(),
                status_frame(mode_key, status_text@, recent_messages@, *policy),
                r,
            ),
    {
        let empty: Vec<PromptMemory> = Vec::new();
        let frame = PromptTaskFrame {
            mode: mode_key,
            output_contract: PromptOutputContract::PlainText,
            user_text: None,
            source_text: None,
            status_text: Some(status_text),
            event_type: None,
            payload_json: None,
            context: BeatPromptContext {
                input_source: None,
                first_beat: None,
                recent_messages,
                semantic_memories: empty.as_slice(),
                context_level: None,
                policy,
                prefer_memory_facts: false,
                include_tool_guidance: false,
            },
        };
        assert(frame@ == status_frame(mode_key, status_text@, recent_messages@, *policy));
        self.compile_nano_frame(&frame)
    }

    /// A one-line explanation of a tool's status.
    pub fn compile_tool_status_explanation(&self, request: &StatusExplanationTranslationRequest) -> (r: Result<
        CompiledNanoPrompt,
        PromptError,
    >)
        ensures
            nano_result_matches(
                self.spec_config(),
                status_frame(
                    PromptMode::ToolStatusExplanation,
                    request.status_text@,
                    request.recent_messages@,
                    *request.policy,
                ),
                r,
            ),
    {
        self.compile_single_line_explanation(
            PromptMode::ToolStatusExplanation,
            request.status_text,
            request.recent_messages,
            request.policy,
        )
    }

    /// A one-line explanation of an error.
    pub fn compile_error_explanation(&self, request: &StatusExplanationTranslationRequest) -> (r: Result<
        CompiledNanoPrompt,
        PromptError,
    >)
        ensures
            nano_result_matches(
                self.spec_config(),
                status_frame(
                    PromptMode::ErrorExplanation,
                    request.status_text@,
                    request.recent_messages@,
                    *request.policy,
                ),
                r,
            ),
    {
        self.compile_single_line_explanation(
            PromptMode::ErrorExplanation,
            request.status_text,
            request.recent_messages,
            request.policy,
        )
    }

    /// The reply the user sees (see `spec_compose_visible_reply`).
    pub fn compose_visible_reply(
        &self,
        first_beat: &str,
        assistant_reply: &str,
        tool_summary: Option<&str>,
    ) -> (r: String)
        ensures
            r@ == spec_compose_visible_reply(first_beat@, assistant_reply@, opt_view(tool_summary)),
    {
        compose_visible_text(first_beat, assistant_reply, tool_summary)
    }
}

/// The reply the user sees (see `spec_compose_visible_reply`).
pub fn compose_visible_text(first_beat: &str, assistant_reply: &str, tool_summary: Option<&str>) -> (r: String)
    ensures
        r@ == spec_compose_visible_reply(first_beat@, assistant_reply@, opt_view(tool_summary)),
{
    let first_beat = sanitize_visible_text(first_beat);
    let assistant_reply = sanitize_visible_text(assistant_reply);
    let mut assistant_text = stitch_visible_sections(first_beat.as_str(), assistant_reply.as_str());
    if let Some(ts) = tool_summary {
        let ts = sanitize_visible_text(ts);
        if !is_empty_string(&ts) {
            assistant_text = stitch_visible_sections(assistant_text.as_str(), ts.as_str());
        }
    }
    if is_blank_str(assistant_text.as_str()) {
        return first_beat;
    }
    assistant_text
}

fn is_empty_string(s: &String) -> (r: bool)
    ensures
        r == (s@.len() == 0),
{
    let v = chars_of(s.as_str());
    v.len() == 0
}


// ---------------------------------------------------------------------------
// Interaction prompts: a nano prompt and a cloud request for the same step
// ---------------------------------------------------------------------------

/// A nano prompt and the cloud request for the same step.
#[derive(Debug, Clone)]
pub struct CompiledInteractionPrompt {
    pub nano_prompt: CompiledNanoPrompt,
    pub cloud_request: ModelRequest,
}

/// How many memories each mode shows, and how long each may be.
pub open spec fn memory_budget(mode: PromptMode) -> (usize, usize) {
    match mode {
        PromptMode::MemoryBackedRecall => (3, 120),
        PromptMode::SummaryBridge => (3, 120),
        PromptMode::FollowupReasoning => (4, 160),
        _ => (0, 0),
    }
}

/// The memory block a mode shows.
pub open spec fn spec_render_memories_for_mode(
    preamble: Seq<char>,
    memories: Seq<PromptMemory>,
    mode: PromptMode,
) -> Option<Seq<char>> {
    let (limit, max_chars) = memory_budget(mode);
    if limit == 0 {
        None
    } else {
        spec_render_selected_memories(preamble, memories, limit, max_chars)
    }
}

pub fn render_selected_memories_for_mode(preamble: &str, memories: &[PromptMemory], mode: PromptMode) -> (r: Option<
    String,
>)
    ensures
        ostr(r) == spec_render_memories_for_mode(preamble@, memories@, mode),
{
    let (limit, max_chars): (usize, usize) = match mode {
        PromptMode::MemoryBackedRecall => (3, 120),
        PromptMode::SummaryBridge => (3, 120),
        PromptMode::FollowupReasoning => (4, 160),
        _ => (0, 0),
    };
    if limit == 0 {
        return None;
    }
    memories_section(preamble, memories, limit, max_chars)
}

pub struct FollowupTranslationRequest<'a> {
    pub user_text: &'a str,
    pub first_beat: &'a str,
    pub recent_messages: &'a [ChatMessage],
    /// The memories in rank order, most relevant first.
    pub semantic_memories: &'a [PromptMemory],
    pub context_level: ContextLevel,
    pub policy: &'a BehaviorPolicy,
    pub include_tool_guidance: bool,
}

pub struct MemoryRecallTranslationRequest<'a> {
    pub user_text: &'a str,
    pub recent_messages: &'a [ChatMessage],
    /// The memories in rank order, facts first among equally relevant ones.
    pub semantic_memories: &'a [PromptMemory],
    pub policy: &'a BehaviorPolicy,
}

pub struct SummaryBridgeTranslationRequest<'a> {
    pub first_beat: &'a str,
    pub source_text: &'a str,
    pub recent_messages: &'a [ChatMessage],
    /// The memories in rank order, most relevant first.
    pub semantic_memories: &'a [PromptMemory],
    pub policy: &'a BehaviorPolicy,
}

pub open spec fn when(flag: bool, content: Seq<char>) -> Option<Seq<char>> {
    if flag {
        Some(content)
    } else {
        None
    }
}

/// The follow-up step's nano prompt.
pub open spec fn spec_followup_nano(config: PromptConfig, request: FollowupTranslationRequest) -> Seq<char> {
    let mode = PromptMode::FollowupReasoning;
    let m = config.spec_mode_config(mode);
    let shared = config.spec_shared_config();
    spec_join_sections(
        head_sections(shared, m, *request.policy, mode) + seq![
            Some("Previous Context setting: "@ + request.context_level.spec_name() + "."@),
            Some("First beat already shown: \""@ + compact(request.first_beat@, 120) + "\""@),
            spec_render_recent_context(request.recent_messages@, m.max_context_messages, 180),
            spec_render_memories_for_mode(shared.memory_preamble, request.semantic_memories@, mode),
            when(request.include_tool_guidance, shared.tool_instructions),
            Some(shared.response_contract),
            Some("User input: "@ + compact(request.user_text@, 240)),
        ],
    )
}

/// The follow-up step's cloud request.
pub open spec fn spec_followup_cloud(config: PromptConfig, request: FollowupTranslationRequest) -> Seq<MessageView> {
    let mode = PromptMode::FollowupReasoning;
    let m = config.spec_mode_config(mode);
    let shared = config.spec_shared_config();
    seq![system_message(spec_join_sections(head_sections(shared, m, *request.policy, mode)))]
        + optional_message(
        spec_render_memories_for_mode(shared.memory_preamble, request.semantic_memories@, mode),
    ) + (if request.include_tool_guidance {
        seq![system_message(shared.tool_instructions)]
    } else {
        Seq::empty()
    }) + seq![
        system_message(shared.response_contract),
        system_message(continue_after_line(request.first_beat@)),
    ] + transcript_messages(recent_window(request.recent_messages@, m.max_context_messages), 320)
        + seq![MessageView { role: "user"@, content: compact(request.user_text@, 320) }]
}

/// The memory-backed recall step's nano prompt.
pub open spec fn spec_recall_nano(config: PromptConfig, request: MemoryRecallTranslationRequest) -> Seq<char> {
    let mode = PromptMode::MemoryBackedRecall;
    let m = config.spec_mode_config(mode);
    let shared = config.spec_shared_config();
    spec_join_sections(
        head_sections(shared, m, *request.policy, mode) + seq![
            length_line(m.max_words),
            spec_render_recent_context(request.recent_messages@, m.max_context_messages, 140),
            spec_render_memories_for_mode(shared.memory_preamble, request.semantic_memories@, mode),
            Some("User question: "@ + compact(request.user_text@, 220)),
        ],
    )
}

/// The memory-backed recall step's cloud request.
pub open spec fn spec_recall_cloud(config: PromptConfig, request: MemoryRecallTranslationRequest) -> Seq<MessageView> {
    let mode = PromptMode::MemoryBackedRecall;
    let m = config.spec_mode_config(mode);
    let shared = config.spec_shared_config();
    seq![system_message(spec_join_sections(head_sections(shared, m, *request.policy, mode)))]
        + optional_message(
        spec_render_memories_for_mode(shared.memory_preamble, request.semantic_memories@, mode),
    ) + transcript_messages(recent_window(request.recent_messages@, m.max_context_messages), 280)
        + seq![MessageView { role: "user"@, content: compact(request.user_text@, 280) }]
}

/// The summary bridge's nano prompt.
pub open spec fn spec_bridge_nano(config: PromptConfig, request: SummaryBridgeTranslationRequest) -> Seq<char> {
    let mode = PromptMode::SummaryBridge;
    let m = config.spec_mode_config(mode);
    let shared = config.spec_shared_config();
    spec_join_sections(
        head_sections(shared, m, *request.policy, mode) + seq![
            length_line(m.max_words),
            Some("First beat already shown: \""@ + compact(request.first_beat@, 120) + "\""@),
            spec_render_recent_context(request.recent_messages@, m.max_context_messages, 140),
            spec_render_memories_for_mode(shared.memory_preamble, request.semantic_memories@, mode),
            Some("Source answer to condense: "@ + compact(request.source_text@, 360)),
        ],
    )
}

/// The summary bridge's cloud request.
pub open spec fn spec_bridge_cloud(config: PromptConfig, request: SummaryBridgeTranslationRequest) -> Seq<MessageView> {
    let mode = PromptMode::SummaryBridge;
    let m = config.spec_mode_config(mode);
    let shared = config.spec_shared_config();
    seq![system_message(spec_join_sections(head_sections(shared, m, *request.policy, mode)))]
        + optional_message(
        spec_render_memories_for_mode(shared.memory_preamble, request.semantic_memories@, mode),
    ) + seq![
        system_message(
            "The first visible beat already shown to the user is: \""@ + compact(
                request.first_beat@,
                160,
            ) + "\"."@,
        ),
        MessageView { role: "user"@, content: compact(request.source_text@, 400) },
    ]
}

fn quoted_first_beat(first_beat: &str) -> (r: String)
    ensures
        r@ == "First beat already shown: \""@ + compact(first_beat@, 120) + "\""@,
{
    let mut out: Vec<char> = Vec::new();
    append_str(&mut out, "First beat already shown: \"");
    let c = compact_text(first_beat, 120);
    append_str(&mut out, c.as_str());
    append_str(&mut out, "\"");
    string_of(&out)
}

fn context_setting(level: ContextLevel) -> (r: String)
    ensures
        r@ == "Previous Context setting: "@ + level.spec_name() + "."@,
{
    let mut out: Vec<char> = Vec::new();
    append_str(&mut out, "Previous Context setting: ");
    append_str(&mut out, level.as_str());
    append_str(&mut out, ".");
    string_of(&out)
}

fn push_optional_message(v: &mut Vec<ModelMessage>, content: Option<String>)
    ensures
        messages_view(final(v)@) == messages_view(old(v)@) + optional_message(ostr(content)),
{
    proof {
        reveal_strlit("system");
    }
    match content {
        Some(c) => push_message(v, "system", c),
        None => {
            assert(messages_view(v@) =~= messages_view(old(v)@) + Seq::<MessageView>::empty());
        },
    }
}

impl PromptTranslator {
    /// The follow-up step after a first beat: a nano prompt and a cloud request.
    pub fn compile_followup(&self, request: &FollowupTranslationRequest) -> (r: Result<
        CompiledInteractionPrompt,
        PromptError,
    >)
        ensures
            r is Ok,
            r matches Ok(p) ==> {
                &&& p.nano_prompt.mode == PromptMode::FollowupReasoning
                &&& p.nano_prompt.prompt@ == spec_followup_nano(self.spec_config(), *request)
                &&& p.nano_prompt.max_output_tokens == self.spec_config().spec_mode_config(
                    PromptMode::FollowupReasoning,
                ).max_output_tokens
                &&& p.cloud_request@ == spec_followup_cloud(self.spec_config(), *request)
            },
    {
        let mode_key = PromptMode::FollowupReasoning;
        let m = self.config.mode_config(mode_key);
        let shared = self.config.shared_config();
        let mut sections = head_section_values(&shared, &m, request.policy, mode_key);
        let ghost head = opt_strs_view(sections@);
        push_section(&mut sections, Some(context_setting(request.context_level)));
        push_section(&mut sections, Some(quoted_first_beat(request.first_beat)));
        push_section(
            &mut sections,
            recent_context_section(request.recent_messages, m.max_context_messages, 180),
        );
        push_section(
            &mut sections,
            render_selected_memories_for_mode(
                shared.memory_preamble.as_str(),
                request.semantic_memories,
                mode_key,
            ),
        );
        push_section(
            &mut sections,
            if request.include_tool_guidance {
                Some(shared.tool_instructions.clone())
            } else {
                None
            },
        );
        push_section(&mut sections, Some(shared.response_contract.clone()));
        push_section(&mut sections, Some(labelled("User input: ", request.user_text, 240)));
        assert(opt_strs_view(sections@) =~= head + seq![
            Some("Previous Context setting: "@ + request.context_level.spec_name() + "."@),
            Some("First beat already shown: \""@ + compact(request.first_beat@, 120) + "\""@),
            spec_render_recent_context(request.recent_messages@, m@.max_context_messages, 180),
            spec_render_memories_for_mode(shared@.memory_preamble, request.semantic_memories@, mode_key),
            when(request.include_tool_guidance, shared@.tool_instructions),
            Some(shared@.response_contract),
            Some("User input: "@ + compact(request.user_text@, 240)),
        ]);
        let nano_prompt = join_sections(sections);
        let head = head_section_values(&shared, &m, request.policy, mode_key);
        let mut messages: Vec<ModelMessage> = Vec::new();
        push_message(&mut messages, "system", join_sections(head));
        push_optional_message(
            &mut messages,
            render_selected_memories_for_mode(
                shared.memory_preamble.as_str(),
                request.semantic_memories,
                mode_key,
            ),
        );
        if request.include_tool_guidance {
            push_message(&mut messages, "system", shared.tool_instructions.clone());
        }
        push_message(&mut messages, "system", shared.response_contract.clone());
        push_message(&mut messages, "system", continue_after_text(request.first_beat));
        push_transcript_messages(&mut messages, request.recent_messages, m.max_context_messages, 320);
        push_message(&mut messages, "user", compact_text(request.user_text, 320));
        proof {
            reveal_strlit("system");
            reveal_strlit("user");
        }
        let cloud_request = ModelRequest { messages };
        assert(cloud_request@ =~= spec_followup_cloud(self.spec_config(), *request));
        Ok(
            CompiledInteractionPrompt {
                nano_prompt: CompiledNanoPrompt {
                    mode: mode_key,
                    prompt: nano_prompt,
                    max_output_tokens: m.max_output_tokens,
                },
                cloud_request,
            },
        )
    }

    /// The recall step answered from memory: a nano prompt and a cloud request.
    pub fn compile_memory_backed_recall(&self, request: &MemoryRecallTranslationRequest) -> (r: Result<
        CompiledInteractionPrompt,
        PromptError,
    >)
        ensures
            r is Ok,
            r matches Ok(p) ==> {
                &&& p.nano_prompt.mode == PromptMode::MemoryBackedRecall
                &&& p.nano_prompt.prompt@ == spec_recall_nano(self.spec_config(), *request)
                &&& p.nano_prompt.max_output_tokens == self.spec_config().spec_mode_config(
                    PromptMode::MemoryBackedRecall,
                ).max_output_tokens
                &&& p.cloud_request@ == spec_recall_cloud(self.spec_config(), *request)
            },
    {
        let mode_key = PromptMode::MemoryBackedRecall;
        let m = self.config.mode_config(mode_key);
        let shared = self.config.shared_config();
        let mut sections = head_section_values(&shared, &m, request.policy, mode_key);
        let ghost head = opt_strs_view(sections@);
        push_section(&mut sections, length_section(m.max_words));
        push_section(
            &mut sections,
            recent_context_section(request.recent_messages, m.max_context_messages, 140),
        );
        push_section(
            &mut sections,
            render_selected_memories_for_mode(
                shared.memory_preamble.as_str(),
                request.semantic_memories,
                mode_key,
            ),
        );
        push_section(&mut sections, Some(labelled("User question: ", request.user_text, 220)));
        assert(opt_strs_view(sections@) =~= head + seq![
            length_line(m@.max_words),
            spec_render_recent_context(request.recent_messages@, m@.max_context_messages, 140),
            spec_render_memories_for_mode(shared@.memory_preamble, request.semantic_memories@, mode_key),
            Some("User question: "@ + compact(request.user_text@, 220)),
        ]);
        let nano_prompt = join_sections(sections);
        let head = head_section_values(&shared, &m, request.policy, mode_key);
        let mut messages: Vec<ModelMessage> = Vec::new();
        push_message(&mut messages, "system", join_sections(head));
        push_optional_message(
            &mut messages,
            render_selected_memories_for_mode(
                shared.memory_preamble.as_str(),
                request.semantic_memories,
                mode_key,
            ),
        );
        push_transcript_messages(&mut messages, request.recent_messages, m.max_context_messages, 280);
        push_message(&mut messages, "user", compact_text(request.user_text, 280));
        proof {
            reveal_strlit("system");
            reveal_strlit("user");
        }
        let cloud_request = ModelRequest { messages };
        assert(cloud_request@ =~= spec_recall_cloud(self.spec_config(), *request));
        Ok(
            CompiledInteractionPrompt {
                nano_prompt: CompiledNanoPrompt {
                    mode: mode_key,
                    prompt: nano_prompt,
                    max_output_tokens: m.max_output_tokens,
                },
                cloud_request,
            },
        )
    }

    /// The bridge that condenses a source answer after a first beat.
    pub fn compile_summary_bridge(&self, request: &SummaryBridgeTranslationRequest) -> (r: Result<
        CompiledInteractionPrompt,
        PromptError,
    >)
        ensures
            r is Ok,
            r matches Ok(p) ==> {
                &&& p.nano_prompt.mode == PromptMode::SummaryBridge
                &&& p.nano_prompt.prompt@ == spec_bridge_nano(self.spec_config(), *request)
                &&& p.nano_prompt.max_output_tokens == self.spec_config().spec_mode_config(
                    PromptMode::SummaryBridge,
                ).max_output_tokens
                &&& p.cloud_request@ == spec_bridge_cloud(self.spec_config(), *request)
            },
    {
        let mode_key = PromptMode::SummaryBridge;
        let m = self.config.mode_config(mode_key);
        let shared = self.config.shared_config();
        let mut sections = head_section_values(&shared, &m, request.policy, mode_key);
        let ghost head = opt_strs_view(sections@);
        push_section(&mut sections, length_section(m.max_words));
        push_section(&mut sections, Some(quoted_first_beat(request.first_beat)));
        push_section(
            &mut sections,
            recent_context_section(request.recent_messages, m.max_context_messages, 140),
        );
        push_section(
            &mut sections,
            render_selected_memories_for_mode(
                shared.memory_preamble.as_str(),
                request.semantic_memories,
                mode_key,
            ),
        );
        push_section(
            &mut sections,
            Some(labelled("Source answer to condense: ", request.source_text, 360)),
        );
        assert(opt_strs_view(sections@) =~= head + seq![
            length_line(m@.max_words),
            Some("First beat already shown: \""@ + compact(request.first_beat@, 120) + "\""@),
            spec_render_recent_context(request.recent_messages@, m@.max_context_messages, 140),
            spec_render_memories_for_mode(shared@.memory_preamble, request.semantic_memories@, mode_key),
            Some("Source answer to condense: "@ + compact(request.source_text@, 360)),
        ]);
        let nano_prompt = join_sections(sections);
        let head = head_section_values(&shared, &m, request.policy, mode_key);
        let mut messages: Vec<ModelMessage> = Vec::new();
        push_message(&mut messages, "system", join_sections(head));
        push_optional_message(
            &mut messages,
            render_selected_memories_for_mode(
                shared.memory_preamble.as_str(),
                request.semantic_memories,
                mode_key,
            ),
        );
        let mut line: Vec<char> = Vec::new();
        append_str(&mut line, "The first visible beat already shown to the user is: \"");
        let c = compact_text(request.first_beat, 160);
        append_str(&mut line, c.as_str());
        append_str(&mut line, "\".");
        push_message(&mut messages, "system", string_of(&line));
        push_message(&mut messages, "user", compact_text(request.source_text, 400));
        proof {
            reveal_strlit("system");
            reveal_strlit("user");
        }
        let cloud_request = ModelRequest { messages };
        assert(cloud_request@ =~= spec_bridge_cloud(self.spec_config(), *request));
        Ok(
            CompiledInteractionPrompt {
                nano_prompt: CompiledNanoPrompt {
                    mode: mode_key,
                    prompt: nano_prompt,
                    max_output_tokens: m.max_output_tokens,
                },
                cloud_request,
            },
        )
    }
}


// ---------------------------------------------------------------------------
// Reading model output
// ---------------------------------------------------------------------------

/// `s.trim_start_matches(p)` for a non-empty `p`: every leading repetition dropped.
pub open spec fn strip_repeated_prefix(s: Seq<char>, p: Seq<char>) -> Seq<char>
    decreases s.len(),
{
    if p.len() > 0 && starts_with(s, p) {
        strip_repeated_prefix(s.skip(p.len() as int), p)
    } else {
        s
    }
}

fn strip_repeated_prefix_chars(v: &Vec<char>, p: &Vec<char>) -> (r: Vec<char>)
    requires
        p.len() > 0,
    ensures
        r@ == strip_repeated_prefix(v@, p@),
{
    let mut start: usize = 0;
    assert(v@.skip(0) =~= v@);
    while p.len() <= v.len() - start && crate::text::matches_at(v, p, start)
        invariant
            start <= v.len(),
            p.len() > 0,
            strip_repeated_prefix(v@.skip(start as int), p@) == strip_repeated_prefix(v@, p@),
        decreases v.len() - start,
    {
        assert(v@.skip(start as int).take(p@.len() as int) =~= v@.subrange(start as int, start + p.len()));
        assert(v@.skip(start as int).skip(p@.len() as int) =~= v@.skip(start + p.len()));
        start = start + p.len();
    }
    proof {
        if p.len() <= v.len() - start {
            assert(v@.skip(start as int).take(p@.len() as int) =~= v@.subrange(start as int, start + p.len()));
        }
    }
    let r = slice_chars(v, start, v.len());
    assert(r@ =~= v@.skip(start as int));
    r
}

/// A fenced block's body: leading white space, `json` tags and white space
/// dropped, then trimmed.
pub open spec fn clean_block(b: Seq<char>) -> Seq<char> {
    trim(
        trim_start_set(
            strip_repeated_prefix(trim_start_set(b, CharSet::Whitespace), "json"@),
            CharSet::Whitespace,
        ),
    )
}

/// The bodies of the text's fenced blocks, in order.
#[verifier::opaque]
pub open spec fn fenced_blocks(rem: Seq<char>) -> Seq<Seq<char>>
    decreases rem.len(),
{
    match find_first(rem, "```"@) {
        None => Seq::empty(),
        Some(start) => if start < 0 || start + 3 > rem.len() {
            Seq::empty()
        } else {
            let after = rem.skip(start + 3);
            match find_first(after, "```"@) {
                None => Seq::empty(),
                Some(end) => if end < 0 || end + 3 > after.len() {
                    Seq::empty()
                } else {
                    seq![clean_block(after.take(end))] + fenced_blocks(after.skip(end + 3))
                },
            }
        },
    }
}

fn fence() -> (r: Vec<char>)
    ensures
        r@ == "```"@,
        r@.len() == 3,
{
    let r = chars_of("```");
    proof {
        reveal_strlit("```");
    }
    r
}

fn clean_block_chars(body: &Vec<char>) -> (r: Vec<char>)
    ensures
        r@ == clean_block(body@),
{
    let json = chars_of("json");
    proof {
        reveal_strlit("json");
    }
    let a = crate::text::trim_start_set_chars(body, CharSet::Whitespace);
    let b = strip_repeated_prefix_chars(&a, &json);
    let c = crate::text::trim_start_set_chars(&b, CharSet::Whitespace);
    trim_chars(&c)
}

fn next_fenced_block(remaining: &Vec<char>) -> (r: Option<(Vec<char>, Vec<char>)>)
    ensures
        match r {
            Some((block, rest)) => fenced_blocks(remaining@) == seq![block@] + fenced_blocks(rest@)
                && rest@.len() < remaining@.len(),
            None => fenced_blocks(remaining@) == Seq::<Seq<char>>::empty(),
        },
{
    let f = fence();
    let start = match find_chars(remaining, &f) {
        Some(i) => i,
        None => {
            assert(find_first(remaining@, "```"@) is None);
            proof {
                reveal(fenced_blocks);
            }
            return None;
        },
    };
    proof {
        lemma_find_first_is(remaining@, f@, start as int);
        reveal(fenced_blocks);
    }
    assert(occurs_at(remaining@, f@, start as int));
    assert(start + 3 <= remaining@.len());
    assert(start + 3 <= remaining.len());
    let after = slice_chars(remaining, start + 3, remaining.len());
    assert(after@ =~= remaining@.skip(start + 3));
    let end = match find_chars(&after, &f) {
        Some(i) => i,
        None => {
            assert(find_first(after@, "```"@) is None);
            return None;
        },
    };
    proof {
        lemma_find_first_is(after@, f@, end as int);
    }
    assert(occurs_at(after@, f@, end as int));
    let body = slice_chars(&after, 0, end);
    assert(body@ =~= after@.take(end as int));
    let block = clean_block_chars(&body);
    let rest = slice_chars(&after, end + 3, after.len());
    assert(rest@ =~= after@.skip(end + 3));
    Some((block, rest))
}

pub fn extract_fenced_blocks(raw_output: &str) -> (r: Vec<String>)
    ensures
        strs_view(r@) == fenced_blocks(raw_output@),
{
    let mut remaining = chars_of(raw_output);
    let mut blocks: Vec<Vec<char>> = Vec::new();
    loop
        invariant
            seqs_of(blocks@) + fenced_blocks(remaining@) == fenced_blocks(raw_output@),
        ensures
            seqs_of(blocks@) == fenced_blocks(raw_output@),
        decreases remaining@.len(),
    {
        match next_fenced_block(&remaining) {
            Some((block, rest)) => {
                let ghost prev = seqs_of(blocks@);
                blocks.push(block);
                assert(seqs_of(blocks@) =~= prev.push(block@));
                assert(seqs_of(blocks@) + fenced_blocks(rest@) =~= prev + (seq![block@]
                    + fenced_blocks(rest@)));
                remaining = rest;
            },
            None => {
                assert(seqs_of(blocks@) + Seq::<Seq<char>>::empty() =~= seqs_of(blocks@));
                break;
            },
        }
    }
    strings_of_parts(&blocks)
}

/// The index of the first occurrence of `c`.
pub open spec fn first_char_index(s: Seq<char>, c: char) -> Option<int>
    decreases s.len(),
{
    if s.len() == 0 {
        None
    } else if s[0] == c {
        Some(0)
    } else {
        match first_char_index(s.drop_first(), c) {
            Some(i) => Some(i + 1),
            None => None,
        }
    }
}

/// The index of the last occurrence of `c`.
pub open spec fn last_char_index(s: Seq<char>, c: char) -> Option<int>
    decreases s.len(),
{
    if s.len() == 0 {
        None
    } else if s.last() == c {
        Some(s.len() - 1)
    } else {
        last_char_index(s.drop_last(), c)
    }
}

proof fn lemma_char_index_bounds(s: Seq<char>, c: char)
    ensures
        match first_char_index(s, c) {
            Some(i) => 0 <= i < s.len() && s[i] == c,
            None => true,
        },
        match last_char_index(s, c) {
            Some(i) => 0 <= i < s.len() && s[i] == c,
            None => true,
        },
    decreases s.len(),
{
    if s.len() > 0 {
        lemma_char_index_bounds(s.drop_first(), c);
        lemma_char_index_bounds(s.drop_last(), c);
    }
}

fn first_char_index_exec(v: &Vec<char>, c: char) -> (r: Option<usize>)
    ensures
        match (r, first_char_index(v@, c)) {
            (Some(i), Some(j)) => i == j,
            (None, None) => true,
            _ => false,
        },
{
    let mut i: usize = 0;
    assert(v@.skip(0) =~= v@);
    while i < v.len()
        invariant
            i <= v.len(),
            match first_char_index(v@, c) {
                Some(j) => match first_char_index(v@.skip(i as int), c) {
                    Some(k) => j == k + i,
                    None => false,
                },
                None => first_char_index(v@.skip(i as int), c) is None,
            },
        decreases v.len() - i,
    {
        assert(v@.skip(i as int)[0] == v@[i as int]);
        assert(v@.skip(i as int).drop_first() =~= v@.skip(i + 1));
        if v[i] == c {
            return Some(i);
        }
        i = i + 1;
    }
    None
}

fn last_char_index_exec(v: &Vec<char>, c: char) -> (r: Option<usize>)
    ensures
        match (r, last_char_index(v@, c)) {
            (Some(i), Some(j)) => i == j,
            (None, None) => true,
            _ => false,
        },
{
    let mut k: usize = v.len();
    assert(v@.take(v.len() as int) =~= v@);
    while k > 0
        invariant
            k <= v.len(),
            last_char_index(v@.take(k as int), c) == last_char_index(v@, c),
        decreases k,
    {
        assert(v@.take(k as int).last() == v@[k - 1]);
        assert(v@.take(k as int).drop_last() =~= v@.take(k - 1));
        if v[k - 1] == c {
            return Some(k - 1);
        }
        k = k - 1;
    }
    None
}

/// The trimmed text from the first `open` to the last `close`, where the first
/// comes before the last.
pub open spec fn spec_extract_json_span(raw: Seq<char>, open: char, close: char) -> Option<Seq<char>> {
    match (first_char_index(raw, open), last_char_index(raw, close)) {
        (Some(start), Some(end)) => if start < end {
            Some(trim(raw.subrange(start, end + 1)))
        } else {
            None
        },
        _ => None,
    }
}

pub fn extract_json_span(raw_output: &str, open: char, close: char) -> (r: Option<String>)
    ensures
        ostr(r) == spec_extract_json_span(raw_output@, open, close),
{
    let v = chars_of(raw_output);
    proof {
        lemma_char_index_bounds(v@, open);
        lemma_char_index_bounds(v@, close);
    }
    let start = match first_char_index_exec(&v, open) {
        Some(i) => i,
        None => return None,
    };
    let end = match last_char_index_exec(&v, close) {
        Some(i) => i,
        None => return None,
    };
    if start < end {
        let span = slice_chars(&v, start, end + 1);
        let t = trim_chars(&span);
        Some(string_of(&t))
    } else {
        None
    }
}

/// The comparison key of a text (see `spec_normalize_text_key`), kept opaque
/// where only its equalities matter.
#[verifier::opaque]
pub open spec fn text_key(s: Seq<char>) -> Seq<char> {
    spec_normalize_text_key(s)
}

/// The values without those whose key repeats an earlier value's key.
pub open spec fn dedupe_by_key(values: Seq<Seq<char>>) -> Seq<Seq<char>>
    decreases values.len(),
{
    if values.len() == 0 {
        values
    } else {
        let rest = dedupe_by_key(values.drop_last());
        if exists|j: int|
            0 <= j < values.len() - 1 && text_key(#[trigger] values[j])
                == text_key(values.last()) {
            rest
        } else {
            rest.push(values.last())
        }
    }
}

pub fn dedupe_strings(values: Vec<String>) -> (r: Vec<String>)
    ensures
        strs_view(r@) == dedupe_by_key(strs_view(values@)),
{
    let ghost all = strs_view(values@);
    proof {
        reveal(text_key);
    }
    let mut keys: Vec<Vec<char>> = Vec::new();
    let mut out: Vec<String> = Vec::new();
    let mut i: usize = 0;
    while i < values.len()
        invariant
            i <= values.len(),
            all == strs_view(values@),
            keys@.len() == i,
            forall|j: int| 0 <= j < i ==> (#[trigger] keys@[j])@ == text_key(all[j]),
            strs_view(out@) == dedupe_by_key(all.take(i as int)),
        decreases values.len() - i,
    {
        let key = normalize_text_key(values[i].as_str());
        let kv = chars_of(key.as_str());
        assert(all[i as int] == values@[i as int]@);
        let mut seen = false;
        let mut k: usize = 0;
        while k < keys.len()
            invariant
                k <= keys.len(),
                keys@.len() == i,
                seen == exists|j: int| 0 <= j < k && (#[trigger] keys@[j])@ == kv@,
            decreases keys.len() - k,
        {
            if crate::text::chars_eq(&keys[k], &kv) {
                seen = true;
            }
            k = k + 1;
        }
        let ghost pre = all.take(i as int);
        let ghost next = all.take(i + 1);
        assert(next.drop_last() =~= pre);
        assert(next.last() == all[i as int]);
        proof {
            reveal(text_key);
            if seen {
                let j = choose|j: int| 0 <= j < i && (#[trigger] keys@[j])@ == kv@;
                assert(next[j] == all[j]);
                assert(text_key(next[j]) == text_key(next.last()));
            } else {
                assert forall|j: int| 0 <= j < next.len() - 1 implies text_key(
                    #[trigger] next[j],
                ) != text_key(next.last()) by {
                    assert(next[j] == all[j]);
                    assert(keys@[j]@ == text_key(all[j]));
                }
            }
        }
        let ghost before = strs_view(out@);
        if !seen {
            out.push(values[i].clone());
            assert(strs_view(out@) =~= before.push(all[i as int]));
        }
        keys.push(kv);
        i = i + 1;
    }
    assert(all.take(values.len() as int) =~= all);
    out
}

/// The texts worth trying as a JSON envelope: the trimmed output, its fenced
/// blocks that are not blank, its braced span and its bracketed span, each once.
pub open spec fn spec_extract_json_candidates(raw: Seq<char>) -> Seq<Seq<char>> {
    let t = trim(raw);
    if t.len() == 0 {
        Seq::empty()
    } else {
        let blocks = nonblank(fenced_blocks(t));
        let spans = optional_item(spec_extract_json_span(t, '{', '}')) + optional_item(
            spec_extract_json_span(t, '[', ']'),
        );
        dedupe_by_key(seq![t] + blocks + spans)
    }
}

/// The items that are not blank, in order.
pub open spec fn nonblank(items: Seq<Seq<char>>) -> Seq<Seq<char>>
    decreases items.len(),
{
    if items.len() == 0 {
        items
    } else if trim(items.last()).len() > 0 {
        nonblank(items.drop_last()).push(items.last())
    } else {
        nonblank(items.drop_last())
    }
}

fn push_optional_str(v: &mut Vec<String>, o: Option<String>)
    ensures
        strs_view(final(v)@) == strs_view(old(v)@) + optional_item(ostr(o)),
{
    match o {
        Some(c) => {
            v.push(c);
            assert(strs_view(v@) =~= strs_view(old(v)@) + optional_item(ostr(o)));
        },
        None => {
            assert(strs_view(v@) =~= strs_view(old(v)@) + optional_item(ostr(o)));
        },
    }
}

pub open spec fn optional_item(o: Option<Seq<char>>) -> Seq<Seq<char>> {
    match o {
        Some(s) => seq![s],
        None => Seq::empty(),
    }
}

pub fn extract_json_candidates(raw_output: &str) -> (r: Vec<String>)
    ensures
        strs_view(r@) == spec_extract_json_candidates(raw_output@),
{
    let v = chars_of(raw_output);
    let t = trim_chars(&v);
    if t.len() == 0 {
        return Vec::new();
    }
    let ts = string_of(&t);
    let mut candidates: Vec<String> = Vec::new();
    candidates.push(string_of(&t));
    let blocks = extract_fenced_blocks(ts.as_str());
    let ghost bs = strs_view(blocks@);
    let ghost base = strs_view(candidates@);
    let mut i: usize = 0;
    while i < blocks.len()
        invariant
            i <= blocks.len(),
            bs == strs_view(blocks@),
            strs_view(candidates@) == base + nonblank(bs.take(i as int)),
        decreases blocks.len() - i,
    {
        assert(bs.take(i + 1).drop_last() =~= bs.take(i as int));
        assert(bs.take(i + 1).last() == blocks@[i as int]@);
        let ghost before = strs_view(candidates@);
        if !is_blank_str(blocks[i].as_str()) {
            candidates.push(blocks[i].clone());
            assert(strs_view(candidates@) =~= before.push(blocks@[i as int]@));
        }
        assert(strs_view(candidates@) =~= base + nonblank(bs.take(i + 1)));
        i = i + 1;
    }
    assert(bs.take(blocks.len() as int) =~= bs);
    let ghost after_blocks = strs_view(candidates@);
    push_optional_str(&mut candidates, extract_json_span(ts.as_str(), '{', '}'));
    push_optional_str(&mut candidates, extract_json_span(ts.as_str(), '[', ']'));
    assert(strs_view(candidates@) =~= seq![t@] + nonblank(fenced_blocks(t@)) + (optional_item(
        spec_extract_json_span(t@, '{', '}'),
    ) + optional_item(spec_extract_json_span(t@, '[', ']'))));
    dedupe_strings(candidates)
}

/// How an output that no candidate parsed from is read: suppressed where it
/// looks like an internal payload, otherwise kept as plain text.
pub open spec fn spec_classify_unparsed_output(raw: Seq<char>) -> ParsedTurnOutputKind {
    if spec_looks_like_internal_payload(trim(raw)) {
        ParsedTurnOutputKind::SuppressedInternalPayload
    } else {
        ParsedTurnOutputKind::PlainTextFallback
    }
}

pub fn classify_unparsed_output(raw_output: &str) -> (r: ParsedTurnOutputKind)
    ensures
        r == spec_classify_unparsed_output(raw_output@),
{
    let v = chars_of(raw_output);
    let t = trim_chars(&v);
    let ts = string_of(&t);
    if looks_like_internal_payload(ts.as_str()) {
        ParsedTurnOutputKind::SuppressedInternalPayload
    } else {
        ParsedTurnOutputKind::PlainTextFallback
    }
}

/// The tool that an action belongs to, read from the action's name.
pub open spec fn spec_infer_tool_name(action: Seq<char>) -> Option<Seq<char>> {
    if spotify_actions().contains(action) {
        Some("spotify"@)
    } else if hue_actions().contains(action) {
        Some("hue"@)
    } else {
        None
    }
}

pub open spec fn spotify_actions() -> Seq<Seq<char>> {
    seq![
        "auth_status"@, "get_connection_state"@, "get_linked_account"@, "start_auth"@,
        "complete_auth"@, "handle_callback"@, "exchange_code"@, "refresh_token"@,
        "refresh_token_if_needed"@, "disconnect"@, "clear_tokens"@, "unlink_account"@,
        "capability_status"@, "validate_connection"@, "validate_scopes"@, "get_devices"@,
        "get_active_device"@, "transfer_playback"@, "ensure_playback_target"@, "play"@,
        "resume_playback"@, "pause"@, "next_track"@, "previous_track"@, "current_playback"@,
        "currently_playing"@, "playback_state"@, "set_volume"@, "search_track"@,
        "search_album"@, "search_artist"@, "search_playlist"@,
        "resolve_track_uri_from_query"@, "search"@,
    ]
}

pub open spec fn hue_actions() -> Seq<Seq<char>> {
    seq!["set_power"@, "set_brightness"@, "set_color"@, "activate_scene"@]
}

fn spotify_action_list() -> (r: Vec<&'static str>)
    ensures
        r@.map_values(|s: &str| s@) == spotify_actions(),
{
    let r = vec![
        "auth_status", "get_connection_state", "get_linked_account", "start_auth",
        "complete_auth", "handle_callback", "exchange_code", "refresh_token",
        "refresh_token_if_needed", "disconnect", "clear_tokens", "unlink_account",
        "capability_status", "validate_connection", "validate_scopes", "get_devices",
        "get_active_device", "transfer_playback", "ensure_playback_target", "play",
        "resume_playback", "pause", "next_track", "previous_track", "current_playback",
        "currently_playing", "playback_state", "set_volume", "search_track",
        "search_album", "search_artist", "search_playlist",
        "resolve_track_uri_from_query", "search",
    ];
    assert(r@.map_values(|s: &str| s@) =~= spotify_actions());
    r
}

fn hue_action_list() -> (r: Vec<&'static str>)
    ensures
        r@.map_values(|s: &str| s@) == hue_actions(),
{
    let r = vec!["set_power", "set_brightness", "set_color", "activate_scene"];
    assert(r@.map_values(|s: &str| s@) =~= hue_actions());
    r
}

fn listed(list: &Vec<&'static str>, value: &Vec<char>) -> (r: bool)
    ensures
        r == list@.map_values(|s: &str| s@).contains(value@),
{
    let ghost names = list@.map_values(|s: &str| s@);
    let mut i: usize = 0;
    while i < list.len()
        invariant
            i <= list.len(),
            names == list@.map_values(|s: &str| s@),
            forall|j: int| 0 <= j < i ==> names[j] != value@,
        decreases list.len() - i,
    {
        let v = chars_of(list[i]);
        assert(names[i as int] == list@[i as int]@);
        if crate::text::chars_eq(&v, value) {
            assert(names[i as int] == value@);
            return true;
        }
        i = i + 1;
    }
    false
}

pub fn infer_tool_name(action: &str) -> (r: Option<&'static str>)
    ensures
        match (r, spec_infer_tool_name(action@)) {
            (Some(a), Some(b)) => a@ == b,
            (None, None) => true,
            _ => false,
        },
{
    let a = chars_of(action);
    if listed(&spotify_action_list(), &a) {
        Some("spotify")
    } else if listed(&hue_action_list(), &a) {
        Some("hue")
    } else {
        None
    }
}

/// What a key of a JSON object holds, as far as the tool-request rules read
/// it: nothing, a string, or some other JSON value.
#[derive(Debug, Clone)]
pub enum JsonField {
    Absent,
    Text(String),
    Other,
}

pub enum JsonFieldView {
    Absent,
    Text(Seq<char>),
    Other,
}

impl View for JsonField {
    type V = JsonFieldView;

    open spec fn view(&self) -> JsonFieldView {
        match self {
            JsonField::Absent => JsonFieldView::Absent,
            JsonField::Text(t) => JsonFieldView::Text(t@),
            JsonField::Other => JsonFieldView::Other,
        }
    }
}

/// What the tool-request rules read of a decoded `tool_request` object: its
/// `action` and `name` keys, and whether it has `tool` and `arguments` keys.
#[derive(Debug, Clone)]
pub struct ToolRequestFields {
    pub action: JsonField,
    pub name: JsonField,
    pub has_tool: bool,
    pub has_arguments: bool,
}

/// The repairs that bring an older tool-request shape to the current one: copy
/// `name` into a missing `action`, add the inferred `tool` where it is missing,
/// and add empty `arguments` where they are missing.
#[derive(Debug, Clone)]
pub struct ToolRequestRepair {
    pub action_from_name: bool,
    pub inferred_tool: Option<&'static str>,
    pub add_empty_arguments: bool,
}

/// A missing `action` is taken from `name`, where `name` is there.
pub open spec fn takes_action_from_name(f: ToolRequestFields) -> bool {
    f.action@ is Absent && !(f.name@ is Absent)
}

/// The `action` after that repair.
pub open spec fn repaired_action(f: ToolRequestFields) -> JsonFieldView {
    if takes_action_from_name(f) {
        f.name@
    } else {
        f.action@
    }
}

/// The tool added: only where `tool` is missing and the (repaired) action is a
/// string naming an action of a known tool.
pub open spec fn spec_inferred_tool(f: ToolRequestFields) -> Option<Seq<char>> {
    if f.has_tool {
        None
    } else {
        match repaired_action(f) {
            JsonFieldView::Text(a) => spec_infer_tool_name(a),
            _ => None,
        }
    }
}

pub fn legacy_tool_request_repair(fields: &ToolRequestFields) -> (r: ToolRequestRepair)
    ensures
        r.action_from_name == takes_action_from_name(*fields),
        match (r.inferred_tool, spec_inferred_tool(*fields)) {
            (Some(a), Some(b)) => a@ == b,
            (None, None) => true,
            _ => false,
        },
        r.add_empty_arguments == !fields.has_arguments,
{
    let action_from_name = match (&fields.action, &fields.name) {
        (JsonField::Absent, JsonField::Absent) => false,
        (JsonField::Absent, _) => true,
        _ => false,
    };
    let action = if action_from_name {
        &fields.name
    } else {
        &fields.action
    };
    let inferred_tool = if fields.has_tool {
        None
    } else {
        match action {
            JsonField::Text(a) => infer_tool_name(a.as_str()),
            _ => None,
        }
    };
    ToolRequestRepair { action_from_name, inferred_tool, add_empty_arguments: !fields.has_arguments }
}

/// A memory text fit to store: markdown stripped and shortened to `limit`
/// characters; blank where that leaves nothing, or where it is an internal
/// payload or mentions prompt debugging or a tool field.
pub open spec fn spec_sanitize_memory_text(value: Seq<char>, limit: usize) -> Seq<char> {
    let c = compact(spec_strip_markdown(value), limit as nat);
    let lower = spec_to_lowercase(c);
    if c.len() == 0 || spec_looks_like_internal_payload(c) || contains(lower, "prompt-debug"@)
        || contains(lower, "\"tool\":"@) {
        Seq::empty()
    } else {
        c
    }
}

pub fn sanitize_memory_text(value: &str, limit: usize) -> (r: String)
    ensures
        r@ == spec_sanitize_memory_text(value@, limit),
{
    let stripped = strip_markdown_artifacts(value);
    let compacted = compact_text(stripped.as_str(), limit);
    let lower = lowercase_chars(compacted.as_str());
    let cv = chars_of(compacted.as_str());
    if cv.len() == 0 || looks_like_internal_payload(compacted.as_str()) || contains_str(
        &lower,
        "prompt-debug",
    ) || contains_str(&lower, "\"tool\":") {
        String::new()
    } else {
        compacted
    }
}


// ---------------------------------------------------------------------------
// Final delivery
// ---------------------------------------------------------------------------

/// The visible text of a finished turn and how it was delivered.
#[derive(Debug, Clone)]
pub struct VisibleDelivery {
    pub assistant_text: String,
    pub was_bridged: bool,
    pub was_direct: bool,
    pub was_suppressed: bool,
}

pub open spec fn opt_sanitized(o: Option<Seq<char>>) -> Option<Seq<char>> {
    match o {
        Some(s) => Some(spec_sanitize_visible_text(s)),
        None => None,
    }
}

/// The text a turn finally shows: the sanitised first beat stitched to the
/// primary text (the direct cloud text for cloud deliveries where there is one,
/// else the parsed reply), then to the tool summary for a bridged tool result;
/// the first beat alone where that leaves nothing.
pub open spec fn spec_final_text(
    delivery_mode: Seq<char>,
    first_beat: Seq<char>,
    parsed_reply: Seq<char>,
    tool_summary: Option<Seq<char>>,
    cloud_direct_text: Option<Seq<char>>,
) -> Seq<char> {
    let fb = spec_sanitize_visible_text(first_beat);
    let parsed = spec_sanitize_visible_text(parsed_reply);
    let primary = if delivery_mode == "cloud_result_direct"@ || delivery_mode
        == "cloud_result_with_nano_summary"@ {
        match opt_sanitized(cloud_direct_text) {
            Some(c) => c,
            None => parsed,
        }
    } else {
        parsed
    };
    let text = spec_stitch_visible_sections(fb, primary);
    let text2 = if delivery_mode == "tool_result_with_nano_bridge"@ {
        spec_stitch_visible_sections(
            text,
            match opt_sanitized(tool_summary) {
                Some(t) => t,
                None => Seq::empty(),
            },
        )
    } else {
        text
    };
    if trim(text2).len() == 0 && fb.len() > 0 {
        fb
    } else {
        text2
    }
}

pub fn finalize_visible_delivery(
    delivery_mode: &str,
    first_beat: &str,
    parsed_reply: &str,
    parsed_kind: ParsedTurnOutputKind,
    tool_summary: Option<&str>,
    cloud_direct_text: Option<&str>,
) -> (r: VisibleDelivery)
    ensures
        r.assistant_text@ == spec_final_text(
            delivery_mode@,
            first_beat@,
            parsed_reply@,
            opt_view(tool_summary),
            opt_view(cloud_direct_text),
        ),
        r.was_bridged == (delivery_mode@ == "tool_result_with_nano_bridge"@ || delivery_mode@
            == "cloud_result_with_nano_summary"@),
        r.was_direct == (delivery_mode@ == "direct_nano"@ || delivery_mode@
            == "memory_backed_nano_recall"@ || delivery_mode@ == "cloud_result_direct"@),
        r.was_suppressed == (parsed_kind == ParsedTurnOutputKind::SuppressedInternalPayload),
{
    let mode = chars_of(delivery_mode);
    let first = sanitize_visible_text(first_beat);
    let parsed = sanitize_visible_text(parsed_reply);
    let cloud_mode = chars_eq_str(&mode, "cloud_result_direct") || chars_eq_str(
        &mode,
        "cloud_result_with_nano_summary",
    );
    let primary = if cloud_mode {
        match cloud_direct_text {
            Some(c) => sanitize_visible_text(c),
            None => parsed,
        }
    } else {
        parsed
    };
    let mut text = stitch_visible_sections(first.as_str(), primary.as_str());
    let bridge = chars_eq_str(&mode, "tool_result_with_nano_bridge");
    if bridge {
        let summary = match tool_summary {
            Some(t) => sanitize_visible_text(t),
            None => String::new(),
        };
        text = stitch_visible_sections(text.as_str(), summary.as_str());
    }
    let first_empty = is_empty_string(&first);
    if is_blank_str(text.as_str()) && !first_empty {
        text = first;
    }
    VisibleDelivery {
        assistant_text: text,
        was_bridged: bridge || chars_eq_str(&mode, "cloud_result_with_nano_summary"),
        was_direct: chars_eq_str(&mode, "direct_nano") || chars_eq_str(
            &mode,
            "memory_backed_nano_recall",
        ) || chars_eq_str(&mode, "cloud_result_direct"),
        was_suppressed: parsed_kind == ParsedTurnOutputKind::SuppressedInternalPayload,
    }
}

/// A memory candidate's kind and text as kept for storage, with its index
/// among the candidates.
pub struct KeptCandidate {
    pub index: int,
    pub kind: Seq<char>,
    pub text: Seq<char>,
}

/// The candidates worth storing, in order: each kind shortened to 24
/// characters and text sanitised to 180; a candidate is dropped where its text
/// comes out blank, where its key is shorter than eight bytes, or where an
/// earlier kept candidate has the same key.
pub open spec fn kept_candidates(cs: Seq<(Seq<char>, Seq<char>)>) -> Seq<KeptCandidate>
    decreases cs.len(),
{
    if cs.len() == 0 {
        Seq::empty()
    } else {
        let rest = kept_candidates(cs.drop_last());
        let kind = compact(cs.last().0, 24);
        let text = spec_sanitize_memory_text(cs.last().1, 180);
        let key = spec_normalize_text_key(text);
        if text.len() == 0 || encode_utf8(key).len() < 8 || exists|k: int|
            0 <= k < rest.len() && spec_normalize_text_key((#[trigger] rest[k]).text) == key {
            rest
        } else {
            rest.push(KeptCandidate { index: cs.len() - 1, kind, text })
        }
    }
}

pub open spec fn candidate_pairs(v: Seq<(String, String)>) -> Seq<(Seq<char>, Seq<char>)> {
    v.map_values(|p: (String, String)| (p.0@, p.1@))
}

pub open spec fn kept_view(v: Seq<(usize, String, String)>) -> Seq<KeptCandidate> {
    v.map_values(|t: (usize, String, String)| KeptCandidate { index: t.0 as int, kind: t.1@, text: t.2@ })
}

/// Memory candidates (kind, text) filtered as `kept_candidates` says.
pub fn filter_memory_candidates(candidates: &Vec<(String, String)>) -> (r: Vec<(usize, String, String)>)
    ensures
        kept_view(r@) == kept_candidates(candidate_pairs(candidates@)),
{
    let ghost all = candidate_pairs(candidates@);
    let mut out: Vec<(usize, String, String)> = Vec::new();
    let mut keys: Vec<Vec<char>> = Vec::new();
    let mut i: usize = 0;
    while i < candidates.len()
        invariant
            i <= candidates.len(),
            all == candidate_pairs(candidates@),
            kept_view(out@) == kept_candidates(all.take(i as int)),
            keys@.len() == out@.len(),
            forall|k: int| 0 <= k < keys@.len() ==> (#[trigger] keys@[k])@ == spec_normalize_text_key(
                kept_view(out@)[k].text,
            ),
        decreases candidates.len() - i,
    {
        let ghost pre = all.take(i as int);
        let ghost next = all.take(i + 1);
        assert(next.drop_last() =~= pre);
        assert(next.last() == all[i as int]);
        assert(all[i as int] == (candidates@[i as int].0@, candidates@[i as int].1@));
        let kind = compact_text(candidates[i].0.as_str(), 24);
        let text = sanitize_memory_text(candidates[i].1.as_str(), 180);
        let key = normalize_text_key(text.as_str());
        let kv = chars_of(key.as_str());
        let mut seen = false;
        let mut k: usize = 0;
        while k < keys.len()
            invariant
                k <= keys.len(),
                seen == exists|j: int| 0 <= j < k && (#[trigger] keys@[j])@ == kv@,
            decreases keys.len() - k,
        {
            if crate::text::chars_eq(&keys[k], &kv) {
                seen = true;
            }
            k = k + 1;
        }
        let ghost rest = kept_view(out@);
        proof {
            if seen {
                let j = choose|j: int| 0 <= j < keys@.len() && (#[trigger] keys@[j])@ == kv@;
                assert(spec_normalize_text_key(rest[j].text) == key@);
            } else {
                assert forall|j: int| 0 <= j < rest.len() implies spec_normalize_text_key(
                    (#[trigger] rest[j]).text,
                ) != key@ by {
                    assert(keys@[j]@ == spec_normalize_text_key(rest[j].text));
                }
            }
            if text@.len() == 0 {
                assert(encode_utf8(text@) =~= Seq::<u8>::empty());
            }
            vstd::utf8::encode_utf8_decode_utf8(text@);
        }
        let text_empty = text.as_str().as_bytes().len() == 0;
        if !text_empty && key.as_str().as_bytes().len() >= 8 && !seen {
            out.push((i, kind, text));
            keys.push(kv);
            assert(kept_view(out@) =~= rest.push(
                KeptCandidate { index: i as int, kind: compact(all[i as int].0, 24), text: spec_sanitize_memory_text(all[i as int].1, 180) },
            ));
        }
        i = i + 1;
    }
    assert(all.take(candidates.len() as int) =~= all);
    out
}


// ---------------------------------------------------------------------------
// Laws
// ---------------------------------------------------------------------------

proof fn lemma_nonblank(s: Seq<char>)
    requires
        s.len() > 0,
        !is_ws(s[0]),
    ensures
        trim(s).len() > 0,
{
    lemma_trim_empty(s);
}

/// Stripping after a prefix leaves the text from some point on, trimmed.
proof fn lemma_strip_then_trim_tail(s: Seq<char>, p: Seq<char>)
    requires
        strip_then_trim(s, p) is Some,
    ensures
        exists|k: int| 0 <= k <= s.len() && strip_then_trim(s, p)->0 == trim(#[trigger] s.skip(k)),
{
    let n = p.len() as int;
    let x = s.skip(n);
    crate::text::lemma_trim_start_set_skips(x, CharSet::Separator);
    let i = choose|i: int| 0 <= i <= x.len() && trim_start_set(x, CharSet::Separator) == #[trigger] x.skip(i);
    assert(x.skip(i) =~= s.skip(n + i));
}

/// Where the continuation begins with the whole first beat, exactly that beat
/// is dropped: the result is the rest of the continuation after it, with the
/// separators and white space that lead the rest taken off. A blank first beat
/// drops nothing: the result is the continuation trimmed.
pub proof fn lemma_repeated_first_beat_is_dropped(first_beat: Seq<char>, continuation: Seq<char>)
    ensures
        (trim(first_beat).len() > 0 && starts_with(trim(continuation), trim(first_beat))) ==> spec_trim_duplicate_prefix(
            first_beat,
            continuation,
        ) == trim(trim_start_set(trim(continuation).skip(trim(first_beat).len() as int), CharSet::Separator)),
        trim(first_beat).len() == 0 ==> spec_trim_duplicate_prefix(first_beat, continuation) == trim(continuation),
{
}

/// Trimming a duplicate prefix only ever removes text from the front of the
/// continuation: what remains is the trimmed continuation from some point on,
/// trimmed again.
pub proof fn lemma_duplicate_prefix_removed_from_front(first_beat: Seq<char>, continuation: Seq<char>)
    ensures
        exists|k: int|
            0 <= k <= trim(continuation).len() && spec_trim_duplicate_prefix(first_beat, continuation)
                == trim(#[trigger] trim(continuation).skip(k)),
{
    let first = trim(first_beat);
    let continued = trim(continuation);
    let r = spec_trim_duplicate_prefix(first_beat, continuation);
    if first.len() == 0 || (!starts_with(continued, first)
        && spec_strip_matching_opening_sentence(first, continued) is None
        && spec_strip_known_filler_opener(continued) is None) {
        lemma_trim_idempotent(continuation);
        assert(continued.skip(0) =~= continued);
        assert(r == trim(continued.skip(0)));
    } else if starts_with(continued, first) {
        assert(strip_then_trim(continued, first) is Some);
        lemma_strip_then_trim_tail(continued, first);
    } else if spec_strip_matching_opening_sentence(first, continued) is Some {
        let cs = spec_leading_span(continued, 96, sentence_terminators());
        lemma_strip_then_trim_tail(continued, cs);
    } else {
        let opener = spec_leading_span(continued, 40, opener_terminators());
        lemma_strip_then_trim_tail(continued, opener);
    }
}

/// The built-in configuration of a mode is left as it is when laid over itself.
pub proof fn lemma_builtin_mode_is_fixed(mode: PromptMode)
    ensures
        spec_merge_defaults(mode, spec_for_mode(mode)) == spec_for_mode(mode),
{
    reveal_strlit("Return only the first visible conversational beat. Do not answer fully. Do not mention models.");
    reveal_strlit("Reply directly in plain text. Stay conversational, user-facing, and compact. Do not return JSON.");
    reveal_strlit("Continue the answer after the first beat. Do not restart with a greeting, acknowledgment, or recap. Return strict JSON with assistant_reply and tool_request only. assistant_reply must stay user-facing.");
    reveal_strlit("Continue the answer after the first beat. Do not restart with a greeting, acknowledgment, or recap. Return strict JSON with assistant_reply, tool_request, and memory_candidates.");
    reveal_strlit("Answer the user from the selected memory facts only. Keep it short, concrete, and conversational. If the facts are insufficient, say so briefly instead of inventing details.");
    reveal_strlit("Turn the source answer into one short user-facing continuation that preserves the facts, sounds like the same assistant, and does not mention internal systems or models.");
    reveal_strlit("Return one calm ambient line only when the event materially helps the user. Do not mention models.");
    reveal_strlit("Explain the current tool status in one short user-friendly line.");
    reveal_strlit("Explain the issue calmly in one short user-friendly line without internal jargon.");
    let d = spec_for_mode(mode);
    lemma_nonblank(d.instruction);
}

/// With the default configuration every mode compiles with its built-in configuration.
pub proof fn lemma_default_config_uses_builtin_modes(config: PromptConfig, mode: PromptMode)
    requires
        forall|m: PromptMode| #[trigger] config.modes.spec_get(m) == spec_for_mode(m),
    ensures
        config.spec_mode_config(mode) == spec_for_mode(mode),
{
    lemma_builtin_mode_is_fixed(mode);
}

/// A mode whose built-in output is the JSON envelope keeps it whatever is configured.
pub proof fn lemma_json_modes_stay_json(mode: PromptMode, configured: ModeConfigView)
    ensures
        spec_for_mode(mode).output_format == PromptOutputFormat::JsonEnvelope ==> spec_merge_defaults(
            mode,
            configured,
        ).output_format == PromptOutputFormat::JsonEnvelope,
{
}

/// The recent window is the last `limit` messages: no more than `limit`, and
/// all of them where there are fewer.
pub proof fn lemma_recent_window<A>(messages: Seq<A>, limit: usize)
    ensures
        ({
            let w = recent_window(messages, limit);
            &&& w.len() == (if limit == 0 {
                0
            } else if messages.len() <= limit {
                messages.len()
            } else {
                limit as nat
            })
            &&& w == messages.skip(messages.len() - w.len())
        }),
{
    let w = recent_window(messages, limit);
    if limit == 0 || messages.len() == 0 {
        assert(messages.skip(messages.len() as int) =~= Seq::<A>::empty());
    } else if messages.len() <= limit {
        assert(messages.skip(0) =~= messages);
    }
}

/// Every deduplicated text is one of the texts.
pub proof fn lemma_dedupe_subset(values: Seq<Seq<char>>)
    ensures
        forall|k: int|
            0 <= k < dedupe_by_key(values).len() ==> exists|i: int|
                0 <= i < values.len() && #[trigger] dedupe_by_key(values)[k] == values[i],
    decreases values.len(),
{
    if values.len() > 0 {
        let pre = values.drop_last();
        lemma_dedupe_subset(pre);
        let rest = dedupe_by_key(pre);
        let d = dedupe_by_key(values);
        assert forall|k: int| 0 <= k < d.len() implies exists|i: int|
            0 <= i < values.len() && #[trigger] d[k] == values[i] by {
            if k < rest.len() {
                assert(d[k] == rest[k]);
                let i = choose|i: int| 0 <= i < pre.len() && #[trigger] rest[k] == pre[i];
                assert(values[i] == pre[i]);
            } else {
                assert(d[k] == values[values.len() - 1]);
            }
        }
    }
}

/// After deduplication no two texts share a key.
#[verifier::rlimit(40)]
pub proof fn lemma_dedupe_distinct(values: Seq<Seq<char>>)
    ensures
        forall|i: int, j: int|
            0 <= i < j < dedupe_by_key(values).len() ==> text_key(#[trigger] dedupe_by_key(values)[i])
                != text_key(#[trigger] dedupe_by_key(values)[j]),
    decreases values.len(),
{
    if values.len() > 0 {
        let pre = values.drop_last();
        lemma_dedupe_distinct(pre);
        lemma_dedupe_subset(pre);
        let rest = dedupe_by_key(pre);
        let d = dedupe_by_key(values);
        let last = values.last();
        if !(exists|j: int| 0 <= j < values.len() - 1 && text_key(#[trigger] values[j]) == text_key(last)) {
            assert forall|i: int, j: int| 0 <= i < j < d.len() implies text_key(#[trigger] d[i])
                != text_key(#[trigger] d[j]) by {
                assert(d[i] == rest[i]);
                if j == d.len() - 1 {
                    let p = choose|p: int| 0 <= p < pre.len() && #[trigger] rest[i] == pre[p];
                    assert(values[p] == pre[p]);
                    assert(d[j] == last);
                } else {
                    assert(d[j] == rest[j]);
                }
            }
        }
    }
}

/// Every text's key is kept by some deduplicated text.
pub proof fn lemma_dedupe_covers(values: Seq<Seq<char>>)
    ensures
        forall|i: int|
            0 <= i < values.len() ==> exists|k: int|
                0 <= k < dedupe_by_key(values).len() && text_key(#[trigger] dedupe_by_key(values)[k])
                    == text_key(#[trigger] values[i]),
    decreases values.len(),
{
    if values.len() > 0 {
        let pre = values.drop_last();
        lemma_dedupe_covers(pre);
        let rest = dedupe_by_key(pre);
        let d = dedupe_by_key(values);
        let last = values.last();
        assert forall|i: int| 0 <= i < values.len() implies exists|k: int|
            0 <= k < d.len() && text_key(#[trigger] d[k]) == text_key(#[trigger] values[i]) by {
            if exists|j: int| 0 <= j < values.len() - 1 && text_key(#[trigger] values[j]) == text_key(last) {
                if i < values.len() - 1 {
                    assert(values[i] == pre[i]);
                    let k = choose|k: int|
                        0 <= k < rest.len() && text_key(#[trigger] rest[k]) == text_key(#[trigger] pre[i]);
                    assert(d[k] == rest[k]);
                } else {
                    let j = choose|j: int|
                        0 <= j < values.len() - 1 && text_key(#[trigger] values[j]) == text_key(last);
                    assert(values[j] == pre[j]);
                    let k = choose|k: int|
                        0 <= k < rest.len() && text_key(#[trigger] rest[k]) == text_key(#[trigger] pre[j]);
                    assert(d[k] == rest[k]);
                }
            } else {
                if i < values.len() - 1 {
                    assert(values[i] == pre[i]);
                    let k = choose|k: int|
                        0 <= k < rest.len() && text_key(#[trigger] rest[k]) == text_key(#[trigger] pre[i]);
                    assert(d[k] == rest[k]);
                } else {
                    assert(d[d.len() - 1] == last);
                }
            }
        }
    }
}

proof fn lemma_trim_of_empty()
    ensures
        trim(Seq::<char>::empty()) == Seq::<char>::empty(),
{
    lemma_trim_unchanged(Seq::<char>::empty());
}

/// Nothing repeats an empty continuation: it stays empty.
proof fn lemma_trim_duplicate_prefix_of_empty(first: Seq<char>)
    ensures
        spec_trim_duplicate_prefix(first, Seq::empty()).len() == 0,
{
    lemma_trim_of_empty();
    let f = trim(first);
    let e = Seq::<char>::empty();
    assert(spec_leading_span(e, 96, sentence_terminators()) == e);
    assert(spec_leading_span(e, 40, opener_terminators()) == e);
    if spec_strip_known_filler_opener(e) is Some {
        assert(starts_with(e, e));
        assert(e.skip(0) =~= e);
        assert(trim_start_set(e, CharSet::Separator) == e);
    }
}

/// An internal payload in the reply never reaches the user: the visible reply
/// is then what the first beat alone gives.
pub proof fn lemma_internal_payload_never_shown(first_beat: Seq<char>, assistant_reply: Seq<char>)
    requires
        spec_looks_like_internal_payload(trim(assistant_reply)),
    ensures
        spec_compose_visible_reply(first_beat, assistant_reply, None) == spec_sanitize_visible_text(
            first_beat,
        ),
{
    lemma_trim_of_empty();
    let fb = spec_sanitize_visible_text(first_beat);
    assert(spec_sanitize_visible_text(assistant_reply) == Seq::<char>::empty());
    lemma_trim_duplicate_prefix_of_empty(fb);
    lemma_trim_idempotent(trim_set(trim(first_beat), CharSet::DoubleQuote));
    assert(trim(fb) == fb);
    lemma_trim_idempotent(fb);
}

} // verus!
