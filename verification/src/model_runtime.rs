//! The model runtime's plain parts: the local model's availability and prompt
//! modes, token budgets, cloud profile selection and log entries.
pub mod profiles;

use vstd::prelude::*;

use crate::clock::{now_rfc3339, utc_rfc3339_stamp};
use crate::logging::ModelLogEntry;
use crate::model::ModelRequest;
use crate::prompt_translator::{CompiledNanoPrompt, PromptMode};
use crate::text::{chars_eq_str, chars_of, string_of, trim, trim_chars, trim_set, trim_set_chars, CharSet};

verus! {

#[derive(Debug, Clone)]
pub struct FirstBeatRequest {
    pub prompt: CompiledNanoPrompt,
}

#[derive(Debug, Clone)]
pub struct FirstBeatResult {
    pub text: String,
    pub logs: Vec<ModelLogEntry>,
}

#[derive(Debug, Clone)]
pub struct NanoReplyRequest {
    pub prompt: CompiledNanoPrompt,
}

#[derive(Debug, Clone)]
pub struct NanoReplyResult {
    pub raw_output: String,
    pub logs: Vec<ModelLogEntry>,
}

#[derive(Debug, Clone)]
pub struct CloudReasoningRequest {
    pub request: ModelRequest,
}

#[derive(Debug, Clone)]
pub struct CloudReasoningResult {
    pub raw_output: String,
    pub logs: Vec<ModelLogEntry>,
}

#[derive(Debug, Clone)]
pub struct AmbientRequest {
    pub prompt: CompiledNanoPrompt,
}

#[derive(Debug, Clone)]
pub struct AmbientResult {
    pub text: String,
    pub logs: Vec<ModelLogEntry>,
}

/// The embedding runtime that needs no network: its vectors are computed from
/// the text alone.
#[derive(Debug, Clone)]
pub struct LocalDeterministicEmbeddingRuntime {
    dimensions: usize,
}

impl LocalDeterministicEmbeddingRuntime {
    pub closed spec fn spec_dimensions(&self) -> usize {
        self.dimensions
    }

    pub fn new(dimensions: usize) -> (r: Self)
        ensures
            r.spec_dimensions() == dimensions,
    {
        LocalDeterministicEmbeddingRuntime { dimensions }
    }

    /// The runtime's identifier.
    pub fn runtime_id(&self) -> (r: &'static str)
        ensures
            r@ == "local_deterministic_v1"@,
    {
        "local_deterministic_v1"
    }

    /// The length of the vectors it computes.
    pub fn dimensions(&self) -> (r: usize)
        ensures
            r == self.spec_dimensions(),
    {
        self.dimensions
    }
}

/// Whether the local model can run.
#[derive(Debug, Clone, Copy, PartialEq, Eq, Structural)]
pub enum NanoAvailability {
    Available,
    Downloading,
    Unavailable,
    Error,
    Disabled,
}

impl NanoAvailability {
    pub open spec fn spec_name(self) -> Seq<char> {
        match self {
            NanoAvailability::Available => "available"@,
            NanoAvailability::Downloading => "downloading"@,
            NanoAvailability::Unavailable => "unavailable"@,
            NanoAvailability::Error => "error"@,
            NanoAvailability::Disabled => "disabled"@,
        }
    }

    pub fn as_str(self) -> (r: &'static str)
        ensures
            r@ == self.spec_name(),
    {
        match self {
            NanoAvailability::Available => "available",
            NanoAvailability::Downloading => "downloading",
            NanoAvailability::Unavailable => "unavailable",
            NanoAvailability::Error => "error",
            NanoAvailability::Disabled => "disabled",
        }
    }
}

/// The local model's state as its adapter reports it.
#[derive(Debug, Clone)]
pub struct NanoSnapshot {
    pub availability: NanoAvailability,
    pub detail: String,
    pub provider: String,
    pub model: String,
}

impl NanoSnapshot {
    /// The snapshot of a local model that is switched off.
    pub fn disabled() -> (r: Self)
        ensures
            r.availability == NanoAvailability::Disabled,
            r.detail@ == "Nano is disabled."@,
            r.provider@ == "gemini"@,
            r.model@ == "gemini-nano"@,
    {
        NanoSnapshot {
            availability: NanoAvailability::Disabled,
            detail: "Nano is disabled.".to_owned(),
            provider: "gemini".to_owned(),
            model: "gemini-nano".to_owned(),
        }
    }
}

/// How the local model is asked: for a first beat, a full reply, or an ambient line.
#[derive(Debug, Clone, Copy, PartialEq, Eq, Structural)]
pub enum NanoPromptMode {
    FirstBeat,
    FullReply,
    Ambient,
}

impl NanoPromptMode {
    pub open spec fn spec_name(self) -> Seq<char> {
        match self {
            NanoPromptMode::FirstBeat => "first_beat"@,
            NanoPromptMode::FullReply => "full_reply"@,
            NanoPromptMode::Ambient => "ambient"@,
        }
    }

    pub open spec fn spec_from_prompt_mode(mode: PromptMode) -> NanoPromptMode {
        match mode {
            PromptMode::FirstBeat => NanoPromptMode::FirstBeat,
            PromptMode::AmbientLine => NanoPromptMode::Ambient,
            _ => NanoPromptMode::FullReply,
        }
    }

    pub fn as_str(&self) -> (r: &'static str)
        ensures
            r@ == self.spec_name(),
    {
        match self {
            NanoPromptMode::FirstBeat => "first_beat",
            NanoPromptMode::FullReply => "full_reply",
            NanoPromptMode::Ambient => "ambient",
        }
    }

    /// First beats and ambient lines keep their own mode; every other prompt is a
    /// full reply.
    pub fn from_prompt_mode(mode: PromptMode) -> (r: Self)
        ensures
            r == Self::spec_from_prompt_mode(mode),
    {
        match mode {
            PromptMode::FirstBeat => NanoPromptMode::FirstBeat,
            PromptMode::AmbientLine => NanoPromptMode::Ambient,
            PromptMode::NanoReply => NanoPromptMode::FullReply,
            PromptMode::FollowupReasoning | PromptMode::CloudReasoning
            | PromptMode::MemoryBackedRecall | PromptMode::SummaryBridge
            | PromptMode::ToolStatusExplanation | PromptMode::ErrorExplanation => NanoPromptMode::FullReply,
        }
    }
}

/// What the local model answered.
#[derive(Debug, Clone)]
pub struct NanoPromptResponse {
    pub text: String,
    pub snapshot: NanoSnapshot,
    pub prompt: String,
    pub latency_ms: i64,
    pub error_text: Option<String>,
    pub requested_max_output_tokens: Option<u32>,
    pub effective_max_output_tokens: Option<u32>,
}

/// The adapter used where no local model can run: it reports the model as
/// unavailable, with the reason.
#[derive(Debug, Clone)]
pub struct DisabledNanoAdapter {
    snapshot: NanoSnapshot,
}

impl DisabledNanoAdapter {
    pub closed spec fn spec_snapshot(&self) -> NanoSnapshot {
        self.snapshot
    }

    pub fn new(detail: &str) -> (r: Self)
        ensures
            r.spec_snapshot().availability == NanoAvailability::Unavailable,
            r.spec_snapshot().detail@ == detail@,
            r.spec_snapshot().provider@ == "gemini"@,
            r.spec_snapshot().model@ == "gemini-nano"@,
    {
        DisabledNanoAdapter {
            snapshot: NanoSnapshot {
                availability: NanoAvailability::Unavailable,
                detail: detail.to_owned(),
                provider: "gemini".to_owned(),
                model: "gemini-nano".to_owned(),
            },
        }
    }

    /// The adapter's snapshot.
    pub fn snapshot(&self) -> (r: NanoSnapshot)
        ensures
            r.availability == self.spec_snapshot().availability,
            r.detail@ == self.spec_snapshot().detail@,
            r.provider@ == self.spec_snapshot().provider@,
            r.model@ == self.spec_snapshot().model@,
    {
        NanoSnapshot {
            availability: self.snapshot.availability,
            detail: self.snapshot.detail.clone(),
            provider: self.snapshot.provider.clone(),
            model: self.snapshot.model.clone(),
        }
    }

    /// Running a prompt always fails, with the snapshot's detail as the reason.
    pub fn run_prompt(&self, mode: NanoPromptMode, prompt: &str, max_output_tokens: Option<u32>) -> (r: Result<
        NanoPromptResponse,
        String,
    >)
        ensures
            match r {
                Ok(_) => false,
                Err(e) => e@ == self.spec_snapshot().detail@,
            },
    {
        Err(self.snapshot.detail.clone())
    }
}

pub fn default_enabled() -> (r: bool)
    ensures
        r,
{
    true
}

pub fn default_nano_provider() -> (r: String)
    ensures
        r@ == "gemini"@,
{
    "gemini".to_owned()
}

pub fn default_nano_model() -> (r: String)
    ensures
        r@ == "gemini-nano"@,
{
    "gemini-nano".to_owned()
}

/// The local model's output budget: the requested number of tokens, or the
/// fallback where none or zero is requested, held between 1 and 256.
pub open spec fn spec_normalize_nano_max_output_tokens(requested: Option<u32>, fallback: u32) -> u32 {
    let v = match requested {
        Some(x) => if x == 0 {
            fallback
        } else {
            x
        },
        None => fallback,
    };
    if v < 1 {
        1
    } else if v > 256 {
        256
    } else {
        v
    }
}

pub fn normalize_nano_max_output_tokens(requested: Option<u32>, fallback: u32) -> (r: u32)
    ensures
        r == spec_normalize_nano_max_output_tokens(requested, fallback),
        1 <= r <= 256,
{
    let v = match requested {
        Some(0) => fallback,
        Some(x) => x,
        None => fallback,
    };
    if v < 1 {
        1
    } else if v > 256 {
        256
    } else {
        v
    }
}

/// No request to the local model asks for more than 256 tokens, nor for none:
/// whatever a prompt or the configuration asks, the budget sent lies in 1..=256.
pub proof fn lemma_local_budget_capped(requested: Option<u32>, fallback: u32)
    ensures
        1 <= spec_normalize_nano_max_output_tokens(requested, fallback) <= 256,
{
}

/// A first beat's budget: the prompt's own, else the configured one, else 48.
pub fn first_beat_max_output_tokens(request: &FirstBeatRequest, configured: Option<u32>) -> (r: Option<u32>)
    ensures
        r == Some(
            spec_normalize_nano_max_output_tokens(
                match request.prompt.max_output_tokens {
                    Some(v) => Some(v),
                    None => configured,
                },
                48,
            ),
        ),
{
    let requested = match request.prompt.max_output_tokens {
        Some(v) => Some(v),
        None => configured,
    };
    Some(normalize_nano_max_output_tokens(requested, 48))
}

/// A full reply's budget: the prompt's own, else 192.
pub fn nano_reply_max_output_tokens(request: &NanoReplyRequest) -> (r: Option<u32>)
    ensures
        r == Some(spec_normalize_nano_max_output_tokens(request.prompt.max_output_tokens, 192)),
{
    Some(normalize_nano_max_output_tokens(request.prompt.max_output_tokens, 192))
}

/// An ambient line's budget: the prompt's own, else 40.
pub fn ambient_max_output_tokens(request: &AmbientRequest) -> (r: Option<u32>)
    ensures
        r == Some(spec_normalize_nano_max_output_tokens(request.prompt.max_output_tokens, 40)),
{
    Some(normalize_nano_max_output_tokens(request.prompt.max_output_tokens, 40))
}

/// The local model's text as shown: trimmed, surrounding double quotes dropped;
/// nothing where that leaves it empty.
pub open spec fn spec_clean_nano_text(text: Seq<char>) -> Option<Seq<char>> {
    let t = trim_set(trim(text), CharSet::DoubleQuote);
    if t.len() == 0 {
        None
    } else {
        Some(t)
    }
}

pub fn clean_nano_text(text: &str) -> (r: Option<String>)
    ensures
        match (r, spec_clean_nano_text(text@)) {
            (Some(a), Some(b)) => a@ == b,
            (None, None) => true,
            _ => false,
        },
{
    let v = chars_of(text);
    let t = trim_chars(&v);
    let q = trim_set_chars(&t, CharSet::DoubleQuote);
    if q.len() == 0 {
        None
    } else {
        Some(string_of(&q))
    }
}

pub open spec fn profile_ids(profiles: Seq<(String, bool)>) -> Seq<Seq<char>> {
    profiles.map_values(|p: (String, bool)| p.0@)
}

/// The first profile id satisfying the availability test, if any.
pub open spec fn first_available(profiles: Seq<(String, bool)>) -> Option<Seq<char>>
    decreases profiles.len(),
{
    if profiles.len() == 0 {
        None
    } else if profiles[0].1 {
        Some(profiles[0].0@)
    } else {
        first_available(profiles.drop_first())
    }
}

/// The cloud profile to select: the requested one where it exists, else the
/// first available one, else the first one.
pub open spec fn spec_choose_selected_profile(requested: Option<Seq<char>>, profiles: Seq<(String, bool)>) -> Option<
    Seq<char>,
> {
    match requested {
        Some(r) if profile_ids(profiles).contains(r) => Some(r),
        _ => if first_available(profiles) is Some {
            first_available(profiles)
        } else if profiles.len() > 0 {
            Some(profiles[0].0@)
        } else {
            None
        },
    }
}

pub fn choose_selected_profile(requested: Option<&str>, profiles: Vec<(String, bool)>) -> (r: Option<String>)
    ensures
        ({
            let req = match requested {
                Some(s) => Some(s@),
                None => None,
            };
            match (r, spec_choose_selected_profile(req, profiles@)) {
                (Some(a), Some(b)) => a@ == b,
                (None, None) => true,
                _ => false,
            }
        }),
{
    let ghost ids = profile_ids(profiles@);
    if let Some(wanted) = requested {
        let mut i: usize = 0;
        while i < profiles.len()
            invariant
                i <= profiles.len(),
                requested == Some(wanted),
                ids == profile_ids(profiles@),
                forall|j: int| 0 <= j < i ==> ids[j] != wanted@,
            decreases profiles.len() - i,
        {
            let id = chars_of(profiles[i].0.as_str());
            assert(ids[i as int] == profiles@[i as int].0@);
            if chars_eq_str(&id, wanted) {
                assert(ids.contains(wanted@));
                return Some(wanted.to_owned());
            }
            i = i + 1;
        }
        assert(!ids.contains(wanted@));
    }
    let mut k: usize = 0;
    assert(profiles@.skip(0) =~= profiles@);
    while k < profiles.len()
        invariant
            k <= profiles.len(),
            first_available(profiles@.skip(k as int)) == first_available(profiles@),
            match requested {
                Some(q) => !profile_ids(profiles@).contains(q@),
                None => true,
            },
        decreases profiles.len() - k,
    {
        assert(profiles@.skip(k as int)[0] == profiles@[k as int]);
        assert(profiles@.skip(k as int).drop_first() =~= profiles@.skip(k + 1));
        if profiles[k].1 {
            return Some(profiles[k].0.clone());
        }
        k = k + 1;
    }
    assert(first_available(profiles@.skip(profiles.len() as int)) is None);
    if profiles.len() > 0 {
        Some(profiles[0].0.clone())
    } else {
        None
    }
}

/// The name under which a local-model stage is logged.
pub open spec fn nano_stage_name(stage: Seq<char>) -> Seq<char> {
    if stage == "nano_first_beat"@ {
        "Nano first beat"@
    } else if stage == "nano_ambient"@ {
        "Nano ambient"@
    } else {
        "Nano follow-up"@
    }
}

/// The log entry of a local-model call, stamped with `created_at`.
pub fn nano_log_entry_at(stage: &str, response: &NanoPromptResponse, created_at: String) -> (r: ModelLogEntry)
    ensures
        r.created_at == created_at,
        r.model_name@ == nano_stage_name(stage@),
        r.prompt@ == response.prompt@,
        r.raw_output@ == response.text@,
        r.input_tokens is None,
        r.output_tokens is None,
        r.latency_ms == response.latency_ms,
        r.http_status == Some(200i64),
        r.error_text is None,
{
    let s = chars_of(stage);
    let model_name = if chars_eq_str(&s, "nano_first_beat") {
        "Nano first beat".to_owned()
    } else if chars_eq_str(&s, "nano_ambient") {
        "Nano ambient".to_owned()
    } else {
        "Nano follow-up".to_owned()
    };
    ModelLogEntry {
        created_at,
        model_name,
        prompt: response.prompt.clone(),
        raw_output: response.text.clone(),
        input_tokens: None,
        output_tokens: None,
        latency_ms: response.latency_ms,
        http_status: Some(200),
        error_text: None,
    }
}

/// The log entry of a local-model call, stamped with the current time.
pub fn nano_log_entry(stage: &str, response: &NanoPromptResponse) -> (r: ModelLogEntry)
    ensures
        utc_rfc3339_stamp(r.created_at@),
        r.model_name@ == nano_stage_name(stage@),
        r.prompt@ == response.prompt@,
        r.raw_output@ == response.text@,
        r.input_tokens is None,
        r.output_tokens is None,
        r.latency_ms == response.latency_ms,
        r.http_status == Some(200i64),
        r.error_text is None,
{
    nano_log_entry_at(stage, response, now_rfc3339())
}

} // verus!
