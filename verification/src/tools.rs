//! The deterministic tools the assistant can drive, and the rules that read a
//! user's words as a tool request.
pub mod cards;
pub mod catalog;
pub mod hue;

use vstd::prelude::*;
use vstd::string::StringSliceAdditionalSpecFns;
use vstd::utf8::{decode_utf8, encode_utf8, encode_utf8_decode_utf8, is_char_boundary};

use crate::text::{
    ascii_lower_chars, ascii_lower_seq, append_chars, append_str, chars_eq_str, chars_of,
    contains, contains_str, find_bytes, first_bytes_occurrence, lowercase_chars, remove_all,
    remove_all_chars, spec_to_lowercase, string_of, to_lowercase_string, trim, trim_chars,
    bytes_occur_at, lemma_trim_unchanged,
};

verus! {

/// A tool the assistant can operate.
#[derive(Debug, Clone, Copy, PartialEq, Eq, Structural)]
pub enum ToolName {
    Spotify,
    Hue,
}

/// Why a tool request was refused.
#[derive(Debug, Clone)]
pub enum ToolError {
    /// The normalised name that matched no tool.
    UnsupportedTool(String),
    /// The tool (as named) has no authorisation flow.
    AuthNotSupported(String),
    /// The tool (as named) cannot be disconnected.
    DisconnectNotSupported(String),
    /// The tool (as named) takes no authorisation callbacks.
    AuthCallbackNotSupported(String),
    HuePowerRequired,
    HueLevelRequired,
    HueColorRequired,
    HueSceneRequired,
    /// The Hue action that does not exist.
    UnsupportedHueAction(String),
}

fn prefixed(prefix: &str, rest: &str) -> (r: String)
    ensures
        r@ == prefix@ + rest@,
{
    let mut out: Vec<char> = Vec::new();
    append_str(&mut out, prefix);
    append_str(&mut out, rest);
    string_of(&out)
}

impl ToolError {
    pub open spec fn spec_message(&self) -> Seq<char> {
        match self {
            ToolError::UnsupportedTool(name) => "unsupported tool: "@ + name@,
            ToolError::AuthNotSupported(tool) => "tool does not support authentication: "@ + tool@,
            ToolError::DisconnectNotSupported(tool) => "tool does not support disconnect: "@ + tool@,
            ToolError::AuthCallbackNotSupported(tool) => "tool does not support auth callbacks: "@
                + tool@,
            ToolError::HuePowerRequired => "hue.set_power requires a boolean on"@,
            ToolError::HueLevelRequired => "hue.set_brightness requires a numeric level"@,
            ToolError::HueColorRequired => "hue.set_color requires a color"@,
            ToolError::HueSceneRequired => "hue.activate_scene requires a scene"@,
            ToolError::UnsupportedHueAction(action) => "unsupported Hue action: "@ + action@,
        }
    }

    /// The error's text, as users see it.
    pub fn message(&self) -> (r: String)
        ensures
            r@ == self.spec_message(),
    {
        match self {
            ToolError::UnsupportedTool(name) => prefixed("unsupported tool: ", name.as_str()),
            ToolError::AuthNotSupported(tool) => prefixed(
                "tool does not support authentication: ",
                tool.as_str(),
            ),
            ToolError::DisconnectNotSupported(tool) => prefixed(
                "tool does not support disconnect: ",
                tool.as_str(),
            ),
            ToolError::AuthCallbackNotSupported(tool) => prefixed(
                "tool does not support auth callbacks: ",
                tool.as_str(),
            ),
            ToolError::HuePowerRequired => "hue.set_power requires a boolean on".to_owned(),
            ToolError::HueLevelRequired => "hue.set_brightness requires a numeric level".to_owned(),
            ToolError::HueColorRequired => "hue.set_color requires a color".to_owned(),
            ToolError::HueSceneRequired => "hue.activate_scene requires a scene".to_owned(),
            ToolError::UnsupportedHueAction(action) => prefixed(
                "unsupported Hue action: ",
                action.as_str(),
            ),
        }
    }
}

impl ToolName {
    pub open spec fn spec_name(self) -> Seq<char> {
        match self {
            ToolName::Spotify => "spotify"@,
            ToolName::Hue => "hue"@,
        }
    }

    /// What `parse` answers for a text: it is trimmed and ASCII lower-cased first.
    pub open spec fn spec_parse(value: Seq<char>) -> Result<ToolName, Seq<char>> {
        let n = ascii_lower_seq(trim(value));
        if n == "spotify"@ {
            Ok(ToolName::Spotify)
        } else if n == "hue"@ {
            Ok(ToolName::Hue)
        } else {
            Err(n)
        }
    }

    pub fn as_str(self) -> (r: &'static str)
        ensures
            r@ == self.spec_name(),
    {
        match self {
            ToolName::Spotify => "spotify",
            ToolName::Hue => "hue",
        }
    }

    pub fn parse(value: &str) -> (r: Result<ToolName, ToolError>)
        ensures
            match (r, ToolName::spec_parse(value@)) {
                (Ok(t), Ok(u)) => t == u,
                (Err(ToolError::UnsupportedTool(e)), Err(n)) => e@ == n,
                _ => false,
            },
    {
        let v = chars_of(value);
        let t = trim_chars(&v);
        let n = ascii_lower_chars(&t);
        if chars_eq_str(&n, "spotify") {
            Ok(ToolName::Spotify)
        } else if chars_eq_str(&n, "hue") {
            Ok(ToolName::Hue)
        } else {
            Err(ToolError::UnsupportedTool(string_of(&n)))
        }
    }
}

/// The arguments a request carries: none, a search query, a power state, a
/// colour, or the address an authorisation flow called back to.
#[derive(Debug, Clone)]
pub enum ToolArguments {
    Empty,
    Query(String),
    Power(bool),
    Color(String),
    CallbackUrl(String),
}

/// The mathematical form of `ToolArguments`.
pub enum ToolArgumentsView {
    Empty,
    Query(Seq<char>),
    Power(bool),
    Color(Seq<char>),
    CallbackUrl(Seq<char>),
}

impl View for ToolArguments {
    type V = ToolArgumentsView;

    open spec fn view(&self) -> ToolArgumentsView {
        match self {
            ToolArguments::Empty => ToolArgumentsView::Empty,
            ToolArguments::Query(q) => ToolArgumentsView::Query(q@),
            ToolArguments::Power(on) => ToolArgumentsView::Power(*on),
            ToolArguments::Color(c) => ToolArgumentsView::Color(c@),
            ToolArguments::CallbackUrl(u) => ToolArgumentsView::CallbackUrl(u@),
        }
    }
}

/// One action on one tool.
#[derive(Debug, Clone)]
pub struct ToolRequest {
    pub tool: ToolName,
    pub action: String,
    pub arguments: ToolArguments,
}

pub struct ToolRequestView {
    pub tool: ToolName,
    pub action: Seq<char>,
    pub arguments: ToolArgumentsView,
}

impl View for ToolRequest {
    type V = ToolRequestView;

    open spec fn view(&self) -> ToolRequestView {
        ToolRequestView { tool: self.tool, action: self.action@, arguments: self.arguments@ }
    }
}

/// What a user turn asks of the tools: an exact request, or only a tool that is
/// probably meant.
#[derive(Debug, Clone)]
pub struct ToolIntentMatch {
    pub exact_request: Option<ToolRequest>,
    pub probable_tool: Option<ToolName>,
}

pub struct ToolIntentView {
    pub exact_request: Option<ToolRequestView>,
    pub probable_tool: Option<ToolName>,
}

impl View for ToolIntentMatch {
    type V = ToolIntentView;

    open spec fn view(&self) -> ToolIntentView {
        ToolIntentView {
            exact_request: match self.exact_request {
                Some(r) => Some(r@),
                None => None,
            },
            probable_tool: self.probable_tool,
        }
    }
}

/// The first byte offset at which `n` occurs in `h`.
pub open spec fn find_first_bytes(h: Seq<u8>, n: Seq<u8>) -> Option<int> {
    if exists|i: int| #[trigger] bytes_occur_at(h, n, i) {
        Some(choose|i: int| first_bytes_occurrence(h, n, i))
    } else {
        None
    }
}

/// The text after the first occurrence of `keyword` in the lower-cased text,
/// trimmed. The offset is found in the lower-cased text and applied to the
/// text as given; where it is past the end or inside a character there is none.
pub open spec fn spec_extract_after_keyword(text: Seq<char>, keyword: Seq<char>) -> Option<
    Seq<char>,
> {
    let lb = encode_utf8(spec_to_lowercase(text));
    let kb = encode_utf8(keyword);
    let tb = encode_utf8(text);
    match find_first_bytes(lb, kb) {
        None => None,
        Some(start) => {
            let idx = start + kb.len();
            if idx <= tb.len() && is_char_boundary(tb, idx) {
                Some(trim(decode_utf8(tb.subrange(idx, tb.len() as int))))
            } else {
                None
            }
        },
    }
}

proof fn lemma_first_bytes_unique(h: Seq<u8>, n: Seq<u8>, i: int)
    requires
        first_bytes_occurrence(h, n, i),
    ensures
        find_first_bytes(h, n) == Some(i),
{
    assert(bytes_occur_at(h, n, i));
    let k = choose|k: int| first_bytes_occurrence(h, n, k);
    assert(first_bytes_occurrence(h, n, k));
    if k < i {
        assert(!bytes_occur_at(h, n, k));
    } else if i < k {
        assert(!bytes_occur_at(h, n, i));
    }
}

pub fn extract_after_keyword(text: &str, keyword: &str) -> (r: Option<String>)
    ensures
        match (r, spec_extract_after_keyword(text@, keyword@)) {
            (Some(s), Some(t)) => s@ == t,
            (None, None) => true,
            _ => false,
        },
{
    let lower = to_lowercase_string(text);
    let lb = lower.as_str().as_bytes();
    let kb = keyword.as_bytes();
    let found = find_bytes(lb, kb);
    match found {
        None => {
            assert(!(exists|i: int| #[trigger] bytes_occur_at(lb@, kb@, i)));
            None
        },
        Some(start) => {
            proof {
                lemma_first_bytes_unique(lb@, kb@, start as int);
                assert(lb@ == encode_utf8(spec_to_lowercase(text@)));
                assert(kb@ == encode_utf8(keyword@));
            }
            let tb = text.as_bytes();
            if start > lb.len() || kb.len() > tb.len() {
                return None;
            }
            let idx = start + kb.len();
            if idx > tb.len() {
                return None;
            }
            if !text.is_char_boundary(idx) {
                return None;
            }
            let (_, rest) = text.split_at(idx);
            proof {
                encode_utf8_decode_utf8(rest@);
            }
            let v = chars_of(rest);
            let t = trim_chars(&v);
            Some(string_of(&t))
        },
    }
}

fn exact(tool: ToolName, action: &str, arguments: ToolArguments) -> (r: ToolIntentMatch)
    ensures
        r@ == (ToolIntentView {
            exact_request: Some(
                ToolRequestView { tool: tool, action: action@, arguments: arguments@ },
            ),
            probable_tool: None,
        }),
{
    ToolIntentMatch {
        exact_request: Some(ToolRequest { tool, action: action.to_owned(), arguments }),
        probable_tool: None,
    }
}

pub open spec fn exact_view(tool: ToolName, action: Seq<char>, arguments: ToolArgumentsView) -> ToolIntentView {
    ToolIntentView {
        exact_request: Some(ToolRequestView { tool, action, arguments }),
        probable_tool: None,
    }
}

/// The query of a "play ..." request, with " on spotify" and " using spotify"
/// taken out, where it names something to play rather than a light.
pub open spec fn spec_play_query(text: Seq<char>, lower: Seq<char>) -> Option<Seq<char>> {
    match spec_extract_after_keyword(text, "play "@) {
        Some(q) => {
            let cleaned = trim(remove_all(remove_all(q, " on spotify"@), " using spotify"@));
            if cleaned.len() > 0 && !contains(cleaned, "lights"@) && !contains(cleaned, "lamp"@)
                && (contains(lower, "spotify"@) || !contains(lower, "light"@)) {
                Some(cleaned)
            } else {
                None
            }
        },
        None => None,
    }
}

/// The colour of a "set the lights to ..." request.
pub open spec fn spec_color_query(text: Seq<char>) -> Option<Seq<char>> {
    match spec_extract_after_keyword(text, "set the lights to "@) {
        Some(c) => if trim(c).len() > 0 {
            Some(trim(c))
        } else {
            None
        },
        None => None,
    }
}

/// The rules, first match wins, by which a turn names a tool action.
pub open spec fn spec_detect_tool_intent(text: Seq<char>) -> ToolIntentView {
    let lower = spec_to_lowercase(text);
    if contains(lower, "connect spotify"@) || contains(lower, "sign in to spotify"@) {
        exact_view(ToolName::Spotify, "start_auth"@, ToolArgumentsView::Empty)
    } else if contains(lower, "disconnect spotify"@) {
        exact_view(ToolName::Spotify, "disconnect"@, ToolArgumentsView::Empty)
    } else if contains(lower, "what is playing on spotify"@) || contains(
        lower,
        "what's playing on spotify"@,
    ) || contains(lower, "spotify current playback"@) {
        exact_view(ToolName::Spotify, "current_playback"@, ToolArgumentsView::Empty)
    } else if spec_play_query(text, lower) is Some {
        exact_view(
            ToolName::Spotify,
            "play"@,
            ToolArgumentsView::Query(spec_play_query(text, lower)->0),
        )
    } else if (contains(lower, "pause spotify"@) || lower == "pause"@) && !contains(
        lower,
        "light"@,
    ) {
        exact_view(ToolName::Spotify, "pause"@, ToolArgumentsView::Empty)
    } else if contains(lower, "turn on"@) && contains(lower, "light"@) {
        exact_view(ToolName::Hue, "set_power"@, ToolArgumentsView::Power(true))
    } else if contains(lower, "turn off"@) && contains(lower, "light"@) {
        exact_view(ToolName::Hue, "set_power"@, ToolArgumentsView::Power(false))
    } else if spec_color_query(text) is Some {
        exact_view(
            ToolName::Hue,
            "set_color"@,
            ToolArgumentsView::Color(spec_color_query(text)->0),
        )
    } else {
        ToolIntentView {
            exact_request: None,
            probable_tool: if contains(lower, "spotify"@) || contains(lower, "playing"@) {
                Some(ToolName::Spotify)
            } else if contains(lower, "hue"@) || contains(lower, "light"@) || contains(
                lower,
                "lights"@,
            ) {
                Some(ToolName::Hue)
            } else {
                None
            },
        }
    }
}

fn play_query(text: &str, lower: &Vec<char>) -> (r: Option<String>)
    requires
        lower@ == spec_to_lowercase(text@),
    ensures
        match (r, spec_play_query(text@, lower@)) {
            (Some(s), Some(t)) => s@ == t,
            (None, None) => true,
            _ => false,
        },
{
    match extract_after_keyword(text, "play ") {
        Some(q) => {
            let qv = chars_of(q.as_str());
            let p1 = chars_of(" on spotify");
            let p2 = chars_of(" using spotify");
            proof {
                reveal_strlit(" on spotify");
                reveal_strlit(" using spotify");
            }
            let a = remove_all_chars(&qv, &p1);
            let b = remove_all_chars(&a, &p2);
            let cleaned = trim_chars(&b);
            if cleaned.len() > 0 && !contains_str(&cleaned, "lights") && !contains_str(
                &cleaned,
                "lamp",
            ) && (contains_str(lower, "spotify") || !contains_str(lower, "light")) {
                Some(string_of(&cleaned))
            } else {
                None
            }
        },
        None => None,
    }
}

fn color_query(text: &str) -> (r: Option<String>)
    ensures
        match (r, spec_color_query(text@)) {
            (Some(s), Some(t)) => s@ == t,
            (None, None) => true,
            _ => false,
        },
{
    match extract_after_keyword(text, "set the lights to ") {
        Some(c) => {
            let cv = chars_of(c.as_str());
            let t = trim_chars(&cv);
            if t.len() > 0 {
                Some(string_of(&t))
            } else {
                None
            }
        },
        None => None,
    }
}

/// Reads a user turn as a tool request.
pub fn detect_tool_intent(text: &str) -> (r: ToolIntentMatch)
    ensures
        r@ == spec_detect_tool_intent(text@),
{
    let lower = lowercase_chars(text);
    if contains_str(&lower, "connect spotify") || contains_str(&lower, "sign in to spotify") {
        return exact(ToolName::Spotify, "start_auth", ToolArguments::Empty);
    }
    if contains_str(&lower, "disconnect spotify") {
        return exact(ToolName::Spotify, "disconnect", ToolArguments::Empty);
    }
    if contains_str(&lower, "what is playing on spotify") || contains_str(
        &lower,
        "what's playing on spotify",
    ) || contains_str(&lower, "spotify current playback") {
        return exact(ToolName::Spotify, "current_playback", ToolArguments::Empty);
    }
    if let Some(query) = play_query(text, &lower) {
        return exact(ToolName::Spotify, "play", ToolArguments::Query(query));
    }
    if (contains_str(&lower, "pause spotify") || chars_eq_str(&lower, "pause")) && !contains_str(
        &lower,
        "light",
    ) {
        return exact(ToolName::Spotify, "pause", ToolArguments::Empty);
    }
    if contains_str(&lower, "turn on") && contains_str(&lower, "light") {
        return exact(ToolName::Hue, "set_power", ToolArguments::Power(true));
    }
    if contains_str(&lower, "turn off") && contains_str(&lower, "light") {
        return exact(ToolName::Hue, "set_power", ToolArguments::Power(false));
    }
    if let Some(color) = color_query(text) {
        return exact(ToolName::Hue, "set_color", ToolArguments::Color(color));
    }
    let probable_tool = if contains_str(&lower, "spotify") || contains_str(&lower, "playing") {
        Some(ToolName::Spotify)
    } else if contains_str(&lower, "hue") || contains_str(&lower, "light") || contains_str(
        &lower,
        "lights",
    ) {
        Some(ToolName::Hue)
    } else {
        None
    };
    ToolIntentMatch { exact_request: None, probable_tool }
}


/// Parsing a tool's own name gives the tool back.
pub proof fn lemma_parse_round_trip(tool: ToolName)
    ensures
        ToolName::spec_parse(tool.spec_name()) == Ok::<ToolName, Seq<char>>(tool),
{
    reveal_strlit("spotify");
    reveal_strlit("hue");
    let n = tool.spec_name();
    lemma_trim_unchanged(n);
    assert(ascii_lower_seq(n) =~= n);
    assert("spotify"@ != "hue"@) by {
        assert("spotify"@.len() != "hue"@.len());
    }
}

/// A turn with an exact tool request names no merely probable tool.
pub proof fn lemma_exact_request_excludes_probable(text: Seq<char>)
    ensures
        spec_detect_tool_intent(text).exact_request is Some ==> spec_detect_tool_intent(text).probable_tool is None,
{
}

/// A power request from the user's words follows them: it is a Hue
/// `set_power`, the words mention a light, and it turns the lights on exactly
/// when the words say "turn on" (so a request to turn them off never turns
/// them on). Where the words say "turn off" and a light but not "turn on", and
/// name none of the Spotify requests, the lights are turned off.
pub proof fn lemma_power_request_follows_words(text: Seq<char>)
    ensures
        ({
            let lower = spec_to_lowercase(text);
            let intent = spec_detect_tool_intent(text);
            &&& match intent.exact_request {
                Some(r) => match r.arguments {
                    ToolArgumentsView::Power(on) => {
                        &&& r.tool == ToolName::Hue
                        &&& r.action == "set_power"@
                        &&& contains(lower, "light"@)
                        &&& on == contains(lower, "turn on"@)
                    },
                    _ => true,
                },
                None => true,
            }
            &&& (contains(lower, "turn off"@) && contains(lower, "light"@) && !contains(lower, "turn on"@)
                && !contains(lower, "connect spotify"@) && !contains(lower, "sign in to spotify"@)
                && !contains(lower, "disconnect spotify"@) && !contains(lower, "what is playing on spotify"@)
                && !contains(lower, "what's playing on spotify"@) && !contains(lower, "spotify current playback"@)
                && spec_play_query(text, lower) is None) ==> intent.exact_request == Some(
                ToolRequestView { tool: ToolName::Hue, action: "set_power"@, arguments: ToolArgumentsView::Power(false) },
            )
        }),
{
}

} // verus!
