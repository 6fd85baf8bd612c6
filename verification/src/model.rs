//! The messages and responses exchanged with a cloud model.
use vstd::prelude::*;

use crate::text::{
    append_decimal, append_str, chars_eq_str, chars_of, contains, contains_str, decimal, is_blank,
    slice_chars, starts_with, starts_with_str, string_of, trim,
};

verus! {

/// One message of a cloud request: a role and its text.
#[derive(Debug, Clone)]
pub struct ModelMessage {
    pub role: String,
    pub content: String,
}

/// The mathematical form of a message: its role and its text.
pub struct MessageView {
    pub role: Seq<char>,
    pub content: Seq<char>,
}

impl View for ModelMessage {
    type V = MessageView;

    open spec fn view(&self) -> MessageView {
        MessageView { role: self.role@, content: self.content@ }
    }
}

/// The messages sent to a cloud model, in order.
#[derive(Debug, Clone)]
pub struct ModelRequest {
    pub messages: Vec<ModelMessage>,
}

impl View for ModelRequest {
    type V = Seq<MessageView>;

    open spec fn view(&self) -> Seq<MessageView> {
        self.messages@.map_values(|m: ModelMessage| m@)
    }
}

/// What a cloud model answered, with its usage figures.
#[derive(Debug, Clone)]
pub struct ModelResponse {
    pub prompt_json: String,
    pub raw_output: String,
    pub input_tokens: Option<i64>,
    pub output_tokens: Option<i64>,
    pub latency_ms: i64,
    pub http_status: Option<i64>,
}

/// A message with the given role and text.
pub fn message(role: &str, content: String) -> (r: ModelMessage)
    ensures
        r@ == (MessageView { role: role@, content: content@ }),
{
    ModelMessage { role: role.to_owned(), content }
}

// ---------------------------------------------------------------------------
// Talking to an OpenAI-compatible provider
// ---------------------------------------------------------------------------

/// What one line of an event stream carries.
#[derive(Debug, Clone, PartialEq, Eq)]
pub enum StreamLine {
    /// Not a data line.
    Ignored,
    /// The end-of-stream marker.
    Done,
    /// A data line's payload (JSON text).
    Payload(String),
}

/// A line starting `data: ` carries the rest as its payload, where the rest
/// is `[DONE]` the stream ends; other lines carry nothing.
pub open spec fn spec_classify_stream_line(line: Seq<char>) -> StreamLineView {
    if starts_with(line, "data: "@) {
        let payload = line.skip(6);
        if payload == "[DONE]"@ {
            StreamLineView::Done
        } else {
            StreamLineView::Payload(payload)
        }
    } else {
        StreamLineView::Ignored
    }
}

pub enum StreamLineView {
    Ignored,
    Done,
    Payload(Seq<char>),
}

impl View for StreamLine {
    type V = StreamLineView;

    open spec fn view(&self) -> StreamLineView {
        match self {
            StreamLine::Ignored => StreamLineView::Ignored,
            StreamLine::Done => StreamLineView::Done,
            StreamLine::Payload(p) => StreamLineView::Payload(p@),
        }
    }
}

pub fn classify_stream_line(line: &str) -> (r: StreamLine)
    ensures
        r@ == spec_classify_stream_line(line@),
{
    let v = chars_of(line);
    if !starts_with_str(&v, "data: ") {
        return StreamLine::Ignored;
    }
    proof {
        reveal_strlit("data: ");
    }
    let payload = slice_chars(&v, 6, v.len());
    assert(payload@ == line@.skip(6));
    if chars_eq_str(&payload, "[DONE]") {
        StreamLine::Done
    } else {
        StreamLine::Payload(string_of(&payload))
    }
}

/// What a stream has delivered so far: the text, and the first token counts
/// reported.
#[derive(Debug, Clone)]
pub struct StreamTotals {
    pub raw_output: String,
    pub input_tokens: Option<i64>,
    pub output_tokens: Option<i64>,
}

pub open spec fn first_reported(current: Option<i64>, reported: Option<i64>) -> Option<i64> {
    match current {
        Some(v) => Some(v),
        None => reported,
    }
}

/// Takes in one payload's content delta and token counts: the delta is
/// appended; a count is kept from the first payload that reports it.
pub fn absorb_stream_chunk(
    totals: &mut StreamTotals,
    delta: Option<&str>,
    prompt_tokens: Option<i64>,
    completion_tokens: Option<i64>,
)
    ensures
        final(totals).raw_output@ == old(totals).raw_output@ + match delta {
            Some(d) => d@,
            None => Seq::<char>::empty(),
        },
        final(totals).input_tokens == first_reported(old(totals).input_tokens, prompt_tokens),
        final(totals).output_tokens == first_reported(old(totals).output_tokens, completion_tokens),
{
    if let Some(d) = delta {
        let mut v = chars_of(totals.raw_output.as_str());
        append_str(&mut v, d);
        totals.raw_output = string_of(&v);
    } else {
        assert(totals.raw_output@ + Seq::<char>::empty() =~= totals.raw_output@);
    }
    if totals.input_tokens.is_none() {
        totals.input_tokens = prompt_tokens;
    }
    if totals.output_tokens.is_none() {
        totals.output_tokens = completion_tokens;
    }
}

/// The bearer credential sent with a request: only for a key that is not
/// blank and not the `YOUR_KEY` placeholder.
pub open spec fn spec_authorization_header(api_key: Seq<char>) -> Option<Seq<char>> {
    if trim(api_key).len() > 0 && api_key != "YOUR_KEY"@ {
        Some("Bearer "@ + api_key)
    } else {
        None
    }
}

pub fn authorization_header(api_key: &str) -> (r: Option<String>)
    ensures
        match (r, spec_authorization_header(api_key@)) {
            (Some(a), Some(b)) => a@ == b,
            (None, None) => true,
            _ => false,
        },
{
    let v = chars_of(api_key);
    if !is_blank(&v) && !chars_eq_str(&v, "YOUR_KEY") {
        let mut h = chars_of("Bearer ");
        append_str(&mut h, api_key);
        Some(string_of(&h))
    } else {
        None
    }
}

/// The content a request accepts: an event stream when streaming, else JSON.
pub fn accept_header(stream: bool) -> (r: &'static str)
    ensures
        r@ == (if stream {
            "text/event-stream"@
        } else {
            "application/json"@
        }),
{
    if stream {
        "text/event-stream"
    } else {
        "application/json"
    }
}

/// Whether a response's content type announces an event stream.
pub fn is_event_stream(content_type: &str) -> (r: bool)
    ensures
        r == contains(content_type@, "text/event-stream"@),
{
    let v = chars_of(content_type);
    contains_str(&v, "text/event-stream")
}

/// The error a refused request reports: the status code and the body.
pub fn provider_error_message(status: u16, body: &str) -> (r: String)
    ensures
        r@ == "model provider returned "@ + decimal(status as nat) + " with body: "@ + body@,
{
    let mut v = chars_of("model provider returned ");
    append_decimal(&mut v, status as u64);
    append_str(&mut v, " with body: ");
    append_str(&mut v, body);
    string_of(&v)
}

} // verus!
