//! The conversation's basic vocabulary: context levels, input sources, chat
//! messages, and the rules that judge a cloud profile's key and label.
use vstd::prelude::*;

use crate::text::{
    append_chars, append_str, ascii_upper, char_to_uppercase, chars_eq_str, chars_of, contains,
    contains_str, ends_with, ends_with_str, is_blank, is_ws, join, join_chars, lemma_trim_empty,
    lowercase_chars, seqs_of, slice_chars, spec_char_to_uppercase, spec_to_lowercase,
    starts_with, starts_with_str, string_of, trim, trim_chars, trim_end_set, trim_start_set,
    CharSet,
};

verus! {

/// How much earlier conversation a turn may draw on.
#[derive(Debug, Clone, Copy, PartialEq, Eq, Structural)]
pub enum ContextLevel {
    Low,
    Medium,
    High,
}

impl ContextLevel {
    pub open spec fn spec_recent_turn_limit(self) -> usize {
        match self {
            ContextLevel::Low => 4,
            ContextLevel::Medium => 8,
            ContextLevel::High => 16,
        }
    }

    pub open spec fn spec_semantic_limit(self) -> usize {
        match self {
            ContextLevel::Low => 2,
            ContextLevel::Medium => 5,
            ContextLevel::High => 8,
        }
    }

    pub open spec fn spec_name(self) -> Seq<char> {
        match self {
            ContextLevel::Low => "low"@,
            ContextLevel::Medium => "medium"@,
            ContextLevel::High => "high"@,
        }
    }

    pub fn recent_turn_limit(self) -> (r: usize)
        ensures
            r == self.spec_recent_turn_limit(),
    {
        match self {
            ContextLevel::Low => 4,
            ContextLevel::Medium => 8,
            ContextLevel::High => 16,
        }
    }

    pub fn semantic_limit(self) -> (r: usize)
        ensures
            r == self.spec_semantic_limit(),
    {
        match self {
            ContextLevel::Low => 2,
            ContextLevel::Medium => 5,
            ContextLevel::High => 8,
        }
    }

    pub fn as_str(self) -> (r: &'static str)
        ensures
            r@ == self.spec_name(),
    {
        match self {
            ContextLevel::Low => "low",
            ContextLevel::Medium => "medium",
            ContextLevel::High => "high",
        }
    }
}

/// Where the user's turn came from.
#[derive(Debug, Clone, Copy, PartialEq, Eq, Structural)]
pub enum InputSource {
    Text,
    Voice,
}

impl InputSource {
    pub open spec fn spec_name(self) -> Seq<char> {
        match self {
            InputSource::Text => "text"@,
            InputSource::Voice => "voice"@,
        }
    }

    pub fn as_str(self) -> (r: &'static str)
        ensures
            r@ == self.spec_name(),
    {
        match self {
            InputSource::Text => "text",
            InputSource::Voice => "voice",
        }
    }

    /// `"voice"` reads as voice; anything else as text.
    /// `"voice"` reads as voice; anything else as text.
    pub open spec fn spec_from_str(value: Seq<char>) -> Self {
        if value == "voice"@ {
            InputSource::Voice
        } else {
            InputSource::Text
        }
    }

    pub fn from_str(value: &str) -> (r: Self)
        ensures
            r == Self::spec_from_str(value@),
    {
        let v = chars_of(value);
        if chars_eq_str(&v, "voice") {
            InputSource::Voice
        } else {
            InputSource::Text
        }
    }
}

/// What a stored message holds.
#[derive(Debug, Clone, Copy, PartialEq, Eq, Structural)]
pub enum MessageContentType {
    PlainText,
    ToolResult,
}

impl MessageContentType {
    pub open spec fn spec_name(self) -> Seq<char> {
        match self {
            MessageContentType::PlainText => "plain_text"@,
            MessageContentType::ToolResult => "tool_result"@,
        }
    }

    pub fn as_str(self) -> (r: &'static str)
        ensures
            r@ == self.spec_name(),
    {
        match self {
            MessageContentType::PlainText => "plain_text",
            MessageContentType::ToolResult => "tool_result",
        }
    }

    /// `"tool_result"` reads as a tool result; anything else as plain text.
    /// `"tool_result"` reads as a tool result; anything else as plain text.
    pub open spec fn spec_from_str(value: Seq<char>) -> Self {
        if value == "tool_result"@ {
            MessageContentType::ToolResult
        } else {
            MessageContentType::PlainText
        }
    }

    pub fn from_str(value: &str) -> (r: Self)
        ensures
            r == Self::spec_from_str(value@),
    {
        let v = chars_of(value);
        if chars_eq_str(&v, "tool_result") {
            MessageContentType::ToolResult
        } else {
            MessageContentType::PlainText
        }
    }
}

/// One message of the transcript.
#[derive(Debug)]
pub struct ChatMessage {
    pub id: i64,
    pub role: String,
    pub content: String,
    pub turn_id: String,
    pub input_source: InputSource,
    pub created_at: String,
    pub content_type: MessageContentType,
    pub display_json: Option<String>,
    pub visible_summary: Option<String>,
}

pub fn clone_opt_string(s: &Option<String>) -> (r: Option<String>)
    ensures
        r == *s,
{
    match s {
        Some(v) => Some(v.clone()),
        None => None,
    }
}

impl ChatMessage {
    /// A field-for-field copy.
    pub fn duplicate(&self) -> (r: ChatMessage)
        ensures
            r == *self,
    {
        ChatMessage {
            id: self.id,
            role: self.role.clone(),
            content: self.content.clone(),
            turn_id: self.turn_id.clone(),
            input_source: self.input_source,
            created_at: self.created_at.clone(),
            content_type: self.content_type,
            display_json: clone_opt_string(&self.display_json),
            visible_summary: clone_opt_string(&self.visible_summary),
        }
    }
}

/// A copy of `messages` in order.
pub fn copy_messages(messages: &[ChatMessage]) -> (r: Vec<ChatMessage>)
    ensures
        r@ == messages@,
{
    let mut r: Vec<ChatMessage> = Vec::new();
    let mut i: usize = 0;
    while i < messages.len()
        invariant
            i <= messages.len(),
            r@ == messages@.take(i as int),
        decreases messages.len() - i,
    {
        r.push(messages[i].duplicate());
        i = i + 1;
        assert(r@ =~= messages@.take(i as int));
    }
    assert(messages@.take(messages.len() as int) =~= messages@);
    r
}

/// What the app shows when it starts.
#[derive(Debug)]
pub struct BootstrapState {
    pub previous_context: ContextLevel,
    pub messages: Vec<ChatMessage>,
}

#[derive(Debug)]
pub struct ModelReasoningConfig {
    pub effort: String,
}

/// Receives the events that the core emits to its host.
pub trait CoreCallbacks {
    fn emit(&self, event_type: &str, payload_json: String);
}

/// Callbacks that drop every event.
pub struct NoopCallbacks;

impl CoreCallbacks for NoopCallbacks {
    fn emit(&self, _event_type: &str, _payload_json: String) {
    }
}

// ---------------------------------------------------------------------------
// Cloud profile keys and labels
// ---------------------------------------------------------------------------

pub open spec fn ascii_upper_seq(s: Seq<char>) -> Seq<char> {
    s.map_values(|c: char| ascii_upper(c))
}

/// A key that reads as a placeholder: after trimming and ASCII upper-casing it is
/// `YOUR_KEY`, or starts with `YOUR_` and ends with `_KEY`, or holds `PLACEHOLDER`.
pub open spec fn spec_api_key_looks_placeholder(api_key: Seq<char>) -> bool {
    let n = ascii_upper_seq(trim(api_key));
    n == "YOUR_KEY"@ || (starts_with(n, "YOUR_"@) && ends_with(n, "_KEY"@)) || contains(
        n,
        "PLACEHOLDER"@,
    )
}

/// A key is usable when its trimmed text is neither empty nor a placeholder.
pub open spec fn spec_has_usable_api_key(api_key: Seq<char>) -> bool {
    trim(api_key).len() > 0 && !spec_api_key_looks_placeholder(trim(api_key))
}

pub fn ascii_upper_chars(v: &Vec<char>) -> (r: Vec<char>)
    ensures
        r@ == ascii_upper_seq(v@),
{
    let mut r: Vec<char> = Vec::new();
    let mut i: usize = 0;
    while i < v.len()
        invariant
            i <= v.len(),
            r@ == ascii_upper_seq(v@.take(i as int)),
        decreases v.len() - i,
    {
        let c = v[i];
        let u = if 'a' <= c && c <= 'z' {
            ((c as u32) - 32) as u8 as char
        } else {
            c
        };
        assert(u == ascii_upper(c));
        r.push(u);
        i = i + 1;
        assert(r@ =~= ascii_upper_seq(v@.take(i as int)));
    }
    assert(v@.take(v.len() as int) =~= v@);
    r
}

pub fn api_key_looks_placeholder(api_key: &str) -> (r: bool)
    ensures
        r == spec_api_key_looks_placeholder(api_key@),
{
    let v = chars_of(api_key);
    let t = trim_chars(&v);
    let n = ascii_upper_chars(&t);
    chars_eq_str(&n, "YOUR_KEY") || (starts_with_str(&n, "YOUR_") && ends_with_str(&n, "_KEY"))
        || contains_str(&n, "PLACEHOLDER")
}

pub fn has_usable_api_key(api_key: &str) -> (r: bool)
    ensures
        r == spec_has_usable_api_key(api_key@),
{
    let v = chars_of(api_key);
    let t = trim_chars(&v);
    if t.len() == 0 {
        return false;
    }
    let ts = string_of(&t);
    proof {
        lemma_trim_idempotent(v@);
    }
    !api_key_looks_placeholder(ts.as_str())
}

/// Trimming twice trims nothing more.
pub proof fn lemma_trim_idempotent(s: Seq<char>)
    ensures
        trim(trim(s)) == trim(s),
{
    let t = trim(s);
    if t.len() == 0 {
        assert(trim_start_set(t, CharSet::Whitespace) == t);
    } else {
        lemma_trim_ends(s);
        assert(trim_start_set(t, CharSet::Whitespace) == t);
        assert(trim_end_set(t, CharSet::Whitespace) == t);
    }
}

/// A trimmed text neither starts nor ends with white space.
pub proof fn lemma_trim_ends(s: Seq<char>)
    ensures
        trim(s).len() > 0 ==> !is_ws(trim(s)[0]) && !is_ws(trim(s).last()),
    decreases s.len(),
{
    lemma_trim_start_first(s);
    let a = trim_start_set(s, CharSet::Whitespace);
    lemma_trim_end_prefix(a);
}

pub proof fn lemma_trim_start_first(s: Seq<char>)
    ensures
        trim_start_set(s, CharSet::Whitespace).len() > 0 ==> !is_ws(
            trim_start_set(s, CharSet::Whitespace)[0],
        ),
    decreases s.len(),
{
    if s.len() > 0 && is_ws(s[0]) {
        lemma_trim_start_first(s.drop_first());
    }
}

/// Trimming the end keeps a prefix, and what stays ends with no white space.
pub proof fn lemma_trim_end_prefix(s: Seq<char>)
    ensures
        ({
            let t = trim_end_set(s, CharSet::Whitespace);
            &&& t.len() <= s.len()
            &&& t == s.take(t.len() as int)
            &&& t.len() > 0 ==> !is_ws(t.last())
        }),
    decreases s.len(),
{
    if s.len() > 0 && is_ws(s.last()) {
        lemma_trim_end_prefix(s.drop_last());
        let t = trim_end_set(s.drop_last(), CharSet::Whitespace);
        assert(s.drop_last().take(t.len() as int) =~= s.take(t.len() as int));
    } else {
        assert(s.take(s.len() as int) =~= s);
    }
}

/// `str::split(sep)` with a one-character separator; an empty text gives one empty part.
pub open spec fn split_on(s: Seq<char>, sep: char) -> Seq<Seq<char>>
    decreases s.len(),
{
    if s.len() == 0 {
        seq![Seq::<char>::empty()]
    } else {
        let w = split_on(s.drop_last(), sep);
        if s.last() == sep {
            w.push(Seq::<char>::empty())
        } else {
            w.update(w.len() - 1, w.last().push(s.last()))
        }
    }
}

pub proof fn lemma_split_on_nonempty(s: Seq<char>, sep: char)
    ensures
        split_on(s, sep).len() > 0,
    decreases s.len(),
{
    if s.len() > 0 {
        lemma_split_on_nonempty(s.drop_last(), sep);
    }
}

/// The first character upper-cased by `char::to_uppercase`, the rest kept.
pub open spec fn capitalize(part: Seq<char>) -> Seq<char> {
    if part.len() == 0 {
        Seq::empty()
    } else {
        spec_char_to_uppercase(part[0]) + part.drop_first()
    }
}

/// The label of a cloud profile: the configured one, else the profile id split at
/// `_`, each part capitalised, joined with spaces.
pub open spec fn spec_display_label(label: Option<Seq<char>>, profile_id: Seq<char>) -> Seq<char> {
    match label {
        Some(l) => l,
        None => join(split_on(profile_id, '_').map_values(|p: Seq<char>| capitalize(p)), seq![' ']),
    }
}

pub fn split_on_chars(v: &Vec<char>, sep: char) -> (r: Vec<Vec<char>>)
    ensures
        seqs_of(r@) == split_on(v@, sep),
{
    let mut parts: Vec<Vec<char>> = Vec::new();
    parts.push(Vec::new());
    assert(seqs_of(parts@) =~= split_on(v@.take(0), sep));
    let mut i: usize = 0;
    while i < v.len()
        invariant
            i <= v.len(),
            seqs_of(parts@) == split_on(v@.take(i as int), sep),
        decreases v.len() - i,
    {
        let ghost pre = v@.take(i as int);
        let ghost next = v@.take(i + 1);
        assert(next.drop_last() =~= pre);
        proof {
            lemma_split_on_nonempty(pre, sep);
        }
        let c = v[i];
        if c == sep {
            parts.push(Vec::new());
        } else {
            let mut last = parts.pop().unwrap();
            last.push(c);
            parts.push(last);
        }
        assert(seqs_of(parts@) =~= split_on(next, sep));
        i = i + 1;
    }
    assert(v@.take(v.len() as int) =~= v@);
    parts
}

pub fn capitalize_chars(part: &Vec<char>) -> (r: Vec<char>)
    ensures
        r@ == capitalize(part@),
{
    if part.len() == 0 {
        return Vec::new();
    }
    let first = char_to_uppercase(part[0]);
    let mut r = chars_of(first.as_str());
    let rest = slice_chars(part, 1, part.len());
    append_chars(&mut r, &rest);
    assert(rest@ =~= part@.drop_first());
    r
}

/// The configured label, else one derived from the profile id.
pub fn display_label(label: Option<&str>, profile_id: &str) -> (r: String)
    ensures
        r@ == spec_display_label(
            match label {
                Some(l) => Some(l@),
                None => None,
            },
            profile_id@,
        ),
{
    match label {
        Some(l) => {
            let v = chars_of(l);
            string_of(&v)
        },
        None => {
            let id = chars_of(profile_id);
            let parts = split_on_chars(&id, '_');
            let mut caps: Vec<Vec<char>> = Vec::new();
            let mut i: usize = 0;
            while i < parts.len()
                invariant
                    i <= parts.len(),
                    caps@.len() == i,
                    seqs_of(parts@) == split_on(id@, '_'),
                    seqs_of(caps@) == split_on(id@, '_').take(i as int).map_values(
                        |p: Seq<char>| capitalize(p),
                    ),
                decreases parts.len() - i,
            {
                assert(seqs_of(parts@)[i as int] == parts@[i as int]@);
                let ghost old_caps = seqs_of(caps@);
                let ghost old_vec = caps@;
                let ghost sp = split_on(id@, '_');
                let c = capitalize_chars(&parts[i]);
                caps.push(c);
                assert forall|k: int| 0 <= k < i + 1 implies #[trigger] seqs_of(caps@)[k]
                    == capitalize(sp[k]) by {
                    assert(seqs_of(caps@)[k] == caps@[k]@);
                    if k < i {
                        assert(caps@[k] == old_vec[k]);
                        assert(old_caps[k] == old_vec[k]@);
                        assert(old_caps[k] == sp.take(i as int).map_values(
                            |p: Seq<char>| capitalize(p),
                        )[k]);
                    }
                }
                i = i + 1;
                assert(seqs_of(caps@) =~= sp.take(i as int).map_values(
                    |p: Seq<char>| capitalize(p),
                ));
            }
            assert(split_on(id@, '_').take(i as int) =~= split_on(id@, '_'));
            let mut sep: Vec<char> = Vec::new();
            sep.push(' ');
            assert(sep@ =~= seq![' ']);
            let joined = join_chars(&caps, &sep);
            string_of(&joined)
        },
    }
}

/// The endpoint a profile uses: the configured one, unless it is blank, in which
/// case OpenAI and Gemini providers get their public endpoints.
pub open spec fn spec_default_endpoint(provider: Seq<char>, model: Seq<char>, endpoint: Seq<char>) -> Seq<
    char,
> {
    if trim(endpoint).len() == 0 {
        let p = spec_to_lowercase(provider);
        if p == "openai"@ {
            "https://api.openai.com/v1/chat/completions"@
        } else if p == "gemini"@ {
            "https://generativelanguage.googleapis.com/v1beta/models/"@ + model
                + ":generateContent"@
        } else {
            endpoint
        }
    } else {
        endpoint
    }
}

pub fn default_endpoint(provider: &str, model: &str, endpoint: &str) -> (r: String)
    ensures
        r@ == spec_default_endpoint(provider@, model@, endpoint@),
{
    let e = chars_of(endpoint);
    if is_blank(&e) {
        let p = lowercase_chars(provider);
        if chars_eq_str(&p, "openai") {
            let v = chars_of("https://api.openai.com/v1/chat/completions");
            return string_of(&v);
        } else if chars_eq_str(&p, "gemini") {
            let mut v = chars_of("https://generativelanguage.googleapis.com/v1beta/models/");
            append_str(&mut v, model);
            append_str(&mut v, ":generateContent");
            return string_of(&v);
        }
    }
    string_of(&e)
}


/// Reading an input source's name gives the source back.
pub proof fn lemma_input_source_round_trip(source: InputSource)
    ensures
        InputSource::spec_from_str(source.spec_name()) == source,
{
    reveal_strlit("voice");
    reveal_strlit("text");
    assert("text"@ != "voice"@) by {
        assert("text"@.len() != "voice"@.len());
    }
}

/// Reading a content type's name gives the type back.
pub proof fn lemma_content_type_round_trip(content_type: MessageContentType)
    ensures
        MessageContentType::spec_from_str(content_type.spec_name()) == content_type,
{
    reveal_strlit("tool_result");
    reveal_strlit("plain_text");
    assert("plain_text"@ != "tool_result"@) by {
        assert("plain_text"@.len() != "tool_result"@.len());
    }
}

/// More context never means fewer recent turns or memories.
pub proof fn lemma_context_levels_grow()
    ensures
        ContextLevel::Low.spec_recent_turn_limit() < ContextLevel::Medium.spec_recent_turn_limit()
            < ContextLevel::High.spec_recent_turn_limit(),
        ContextLevel::Low.spec_semantic_limit() < ContextLevel::Medium.spec_semantic_limit()
            < ContextLevel::High.spec_semantic_limit(),
{
}


// ---------------------------------------------------------------------------
// Configuration defaults
// ---------------------------------------------------------------------------

/// A stored message without a content type is plain text.
pub fn default_message_content_type() -> (r: MessageContentType)
    ensures
        r == MessageContentType::PlainText,
{
    MessageContentType::PlainText
}

/// Cloud profiles stream unless configured otherwise.
pub fn default_stream_enabled() -> (r: bool)
    ensures
        r,
{
    true
}

/// A cloud call times out after 45 seconds unless configured otherwise.
pub fn default_timeout_ms() -> (r: u64)
    ensures
        r == 45_000,
{
    45_000
}

/// A cloud profile is enabled unless configured otherwise.
pub fn default_enabled() -> (r: bool)
    ensures
        r,
{
    true
}

/// A resume counts as after idling once 15 minutes have passed.
pub fn default_idle_resume_threshold_seconds() -> (r: u64)
    ensures
        r == 15 * 60,
{
    15 * 60
}

/// Ambient lines are at least 10 minutes apart.
pub fn default_ambient_cooldown_seconds() -> (r: u64)
    ensures
        r == 10 * 60,
{
    10 * 60
}

} // verus!
