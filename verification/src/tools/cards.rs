//! What a tool's result shows the user: whether it succeeded, and the card
//! that presents it.
use vstd::prelude::*;

use crate::text::{
    append_decimal, append_str, chars_eq_str, chars_of, decimal, join, join_chars, opt_seq,
    parts_of_strings, seqs_of, string_of, strs_view,
};
use crate::tools::ToolName;

verus! {

/// What the presentation of a tool's result reads of it: its status and
/// message, the account and device it names, the track played (its name and
/// the text entries of its artist list), the brightness level, colour and
/// scene it set, and the address where an authorisation continues.
#[derive(Debug, Clone)]
pub struct ToolResultFacts {
    pub status: Option<String>,
    pub message: Option<String>,
    pub account_display_name: Option<String>,
    pub target_device_name: Option<String>,
    pub device_name: Option<String>,
    pub track_name: Option<String>,
    pub track_artists: Option<Vec<String>>,
    pub level: Option<u64>,
    pub color: Option<String>,
    pub scene: Option<String>,
    pub authorize_url: Option<String>,
}

/// The outcome of one tool action: the tool, the action, its summary and
/// what its result reports.
#[derive(Debug, Clone)]
pub struct ToolExecutionResult {
    pub tool: ToolName,
    pub action: String,
    pub summary: String,
    pub result: ToolResultFacts,
}

/// The card that presents a tool's result.
#[derive(Debug, Clone)]
pub struct VisibleToolCard {
    pub tool: String,
    pub action: String,
    pub status: String,
    pub title: String,
    pub body: String,
    pub supporting_lines: Vec<String>,
    pub tone: String,
    pub icon: String,
    pub comparison_text: String,
}

pub struct CardView {
    pub tool: Seq<char>,
    pub action: Seq<char>,
    pub status: Seq<char>,
    pub title: Seq<char>,
    pub body: Seq<char>,
    pub supporting_lines: Seq<Seq<char>>,
    pub tone: Seq<char>,
    pub icon: Seq<char>,
    pub comparison_text: Seq<char>,
}

impl View for VisibleToolCard {
    type V = CardView;

    open spec fn view(&self) -> CardView {
        CardView {
            tool: self.tool@,
            action: self.action@,
            status: self.status@,
            title: self.title@,
            body: self.body@,
            supporting_lines: strs_view(self.supporting_lines@),
            tone: self.tone@,
            icon: self.icon@,
            comparison_text: self.comparison_text@,
        }
    }
}

/// A result succeeded when its status is one of `success`, `auth_started`,
/// `connected`, `disconnected`, `connecting` or `unconfigured`.
pub open spec fn spec_is_success(status: Option<Seq<char>>) -> bool {
    match status {
        Some(s) => s == "success"@ || s == "auth_started"@ || s == "connected"@ || s
            == "disconnected"@ || s == "connecting"@ || s == "unconfigured"@,
        None => false,
    }
}

/// The address the host opens for the user: a result whose status is
/// `auth_started` hands out its authorisation address, any other none.
pub open spec fn spec_external_auth_url(f: ToolResultFacts) -> Option<Seq<char>> {
    if opt_seq(f.status) == Some("auth_started"@) {
        opt_seq(f.authorize_url)
    } else {
        None
    }
}

pub fn external_auth_url(result: &ToolExecutionResult) -> (r: Option<String>)
    ensures
        opt_seq(r) == spec_external_auth_url(result.result),
{
    let started = match &result.result.status {
        Some(s) => chars_eq_str(&chars_of(s.as_str()), "auth_started"),
        None => false,
    };
    if started {
        match &result.result.authorize_url {
            Some(url) => Some(url.clone()),
            None => None,
        }
    } else {
        None
    }
}

/// The status a card shows: the result's, else `unknown`.
pub open spec fn card_status(f: ToolResultFacts) -> Seq<char> {
    match opt_seq(f.status) {
        Some(s) => s,
        None => "unknown"@,
    }
}

/// A card's message: the result's, else the summary.
pub open spec fn card_message(r: ToolExecutionResult) -> Seq<char> {
    match opt_seq(r.result.message) {
        Some(m) => m,
        None => r.summary@,
    }
}

/// The playback device named: the target device, else the device.
pub open spec fn card_device(f: ToolResultFacts) -> Option<Seq<char>> {
    match opt_seq(f.target_device_name) {
        Some(d) => Some(d),
        None => opt_seq(f.device_name),
    }
}

/// The track's artists joined by `, `, where that is not empty.
pub open spec fn card_artists(f: ToolResultFacts) -> Option<Seq<char>> {
    match f.track_artists {
        Some(v) => if join(strs_view(v@), ", "@).len() > 0 {
            Some(join(strs_view(v@), ", "@))
        } else {
            None
        },
        None => None,
    }
}

pub open spec fn line_if(o: Option<Seq<char>>, before: Seq<char>, after: Seq<char>) -> Seq<Seq<char>> {
    match o {
        Some(v) => seq![before + v + after],
        None => Seq::empty(),
    }
}

/// A Spotify card's lines: the account it is connected as, and the playback
/// device.
pub open spec fn spotify_lines(f: ToolResultFacts) -> Seq<Seq<char>> {
    line_if(opt_seq(f.account_display_name), "Connected as "@, "."@) + line_if(
        card_device(f),
        "Playback device: "@,
        Seq::empty(),
    )
}

pub open spec fn spotify_playback_action(action: Seq<char>) -> bool {
    action == "play"@ || action == "pause"@ || action == "next_track"@ || action
        == "previous_track"@ || action == "resume_playback"@
}

pub open spec fn spotify_update_title(action: Seq<char>) -> Seq<char> {
    if spotify_playback_action(action) {
        "Spotify playback"@
    } else if action == "set_volume"@ {
        "Spotify volume"@
    } else if action == "disconnect"@ {
        "Spotify disconnected"@
    } else {
        "Spotify update"@
    }
}

/// The body of a Spotify update: for a play, the track, its artists and the
/// device where they are known; else the message.
pub open spec fn spotify_update_body(r: ToolExecutionResult) -> Seq<char> {
    if r.action@ == "play"@ {
        match (opt_seq(r.result.track_name), card_artists(r.result), card_device(r.result)) {
            (Some(t), Some(a), Some(d)) => "Playing "@ + t + " by "@ + a + " on "@ + d + "."@,
            (Some(t), Some(a), None) => "Playing "@ + t + " by "@ + a + "."@,
            _ => card_message(r),
        }
    } else {
        card_message(r)
    }
}

pub open spec fn spotify_attention_status(s: Seq<char>) -> bool {
    s == "auth_required"@ || s == "auth_expired"@ || s == "unconfigured"@
}

pub open spec fn spotify_failure_status(s: Seq<char>) -> bool {
    s == "error"@ || s == "forbidden"@ || s == "rate_limited"@ || s == "no_available_device"@ || s
        == "device_not_found"@ || s == "playback_not_active"@
}

pub open spec fn card(
    tool: Seq<char>,
    action: Seq<char>,
    status: Seq<char>,
    title: Seq<char>,
    body: Seq<char>,
    lines: Seq<Seq<char>>,
    tone: Seq<char>,
    icon: Seq<char>,
) -> CardView {
    CardView {
        tool,
        action,
        status,
        title,
        body,
        supporting_lines: lines,
        tone,
        icon,
        comparison_text: body,
    }
}

/// The card of a Spotify result of the given status.
pub open spec fn spec_spotify_card(r: ToolExecutionResult, status: Seq<char>) -> CardView {
    let m = card_message(r);
    let a = r.action@;
    if status == "connected"@ {
        card("spotify"@, a, status, "Spotify connection"@, m, spotify_lines(r.result), "positive"@, "spotify"@)
    } else if status == "auth_started"@ || status == "connecting"@ {
        card(
            "spotify"@,
            a,
            status,
            "Spotify sign-in"@,
            m,
            seq!["A browser step is required before playback control is available."@],
            "progress"@,
            "spotify"@,
        )
    } else if spotify_attention_status(status) {
        card("spotify"@, a, status, "Spotify needs attention"@, m, spotify_lines(r.result), "warning"@, "warning"@)
    } else if spotify_failure_status(status) {
        card("spotify"@, a, status, "Spotify couldn't complete that"@, m, spotify_lines(r.result), "error"@, "error"@)
    } else {
        card(
            "spotify"@,
            a,
            status,
            spotify_update_title(a),
            spotify_update_body(r),
            spotify_lines(r.result),
            "neutral"@,
            "spotify"@,
        )
    }
}

/// A Hue card's lines: the brightness level, the colour and the scene set.
pub open spec fn hue_lines(f: ToolResultFacts) -> Seq<Seq<char>> {
    (match f.level {
        Some(l) => seq!["Brightness: "@ + decimal(l as nat) + "%"@],
        None => Seq::empty(),
    }) + line_if(opt_seq(f.color), "Color: "@, Seq::empty()) + line_if(
        opt_seq(f.scene),
        "Scene: "@,
        Seq::empty(),
    )
}

pub open spec fn hue_title(action: Seq<char>) -> Seq<char> {
    if action == "set_power"@ {
        "Hue lights"@
    } else if action == "set_brightness"@ {
        "Hue brightness"@
    } else if action == "set_color"@ {
        "Hue color"@
    } else if action == "activate_scene"@ {
        "Hue scene"@
    } else {
        "Hue update"@
    }
}

/// The card of a Hue result of the given status.
pub open spec fn spec_hue_card(r: ToolExecutionResult, status: Seq<char>) -> CardView {
    let error = status == "error"@;
    card(
        "hue"@,
        r.action@,
        status,
        hue_title(r.action@),
        card_message(r),
        hue_lines(r.result),
        if error {
            "error"@
        } else {
            "positive"@
        },
        if error {
            "error"@
        } else {
            "hue"@
        },
    )
}

fn copy_text(o: &Option<String>) -> (r: Option<String>)
    ensures
        opt_seq(r) == opt_seq(*o),
{
    match o {
        Some(s) => Some(s.clone()),
        None => None,
    }
}

fn message_of(r: &ToolExecutionResult) -> (m: String)
    ensures
        m@ == card_message(*r),
{
    match &r.result.message {
        Some(m) => m.clone(),
        None => r.summary.clone(),
    }
}

fn device_of(f: &ToolResultFacts) -> (d: Option<String>)
    ensures
        opt_seq(d) == card_device(*f),
{
    match &f.target_device_name {
        Some(d) => Some(d.clone()),
        None => copy_text(&f.device_name),
    }
}

fn artists_of(f: &ToolResultFacts) -> (a: Option<String>)
    ensures
        opt_seq(a) == card_artists(*f),
{
    match &f.track_artists {
        Some(v) => {
            let parts = parts_of_strings(v);
            let sep = chars_of(", ");
            let j = join_chars(&parts, &sep);
            if j.len() > 0 {
                Some(string_of(&j))
            } else {
                None
            }
        },
        None => None,
    }
}

fn push_line(lines: &mut Vec<String>, before: &str, value: &Option<String>, after: &str)
    ensures
        strs_view(final(lines)@) == strs_view(old(lines)@) + line_if(opt_seq(*value), before@, after@),
{
    let ghost start = strs_view(lines@);
    match value {
        Some(v) => {
            let mut t = chars_of(before);
            append_str(&mut t, v.as_str());
            append_str(&mut t, after);
            lines.push(string_of(&t));
            assert(strs_view(lines@) =~= start + seq![before@ + v@ + after@]);
        },
        None => {
            assert(start + Seq::<Seq<char>>::empty() =~= start);
        },
    }
}

fn spotify_lines_of(f: &ToolResultFacts) -> (r: Vec<String>)
    ensures
        strs_view(r@) == spotify_lines(*f),
{
    let mut lines: Vec<String> = Vec::new();
    assert(strs_view(lines@) =~= Seq::<Seq<char>>::empty());
    push_line(&mut lines, "Connected as ", &f.account_display_name, ".");
    push_line(&mut lines, "Playback device: ", &device_of(f), "");
    proof {
        reveal_strlit("");
    }
    assert(strs_view(lines@) =~= spotify_lines(*f));
    lines
}

fn make_card(
    tool: &str,
    action: &String,
    status: &str,
    title: &str,
    body: String,
    lines: Vec<String>,
    tone: &str,
    icon: &str,
) -> (c: VisibleToolCard)
    ensures
        c@ == card(tool@, action@, status@, title@, body@, strs_view(lines@), tone@, icon@),
{
    VisibleToolCard {
        tool: tool.to_owned(),
        action: action.clone(),
        status: status.to_owned(),
        title: title.to_owned(),
        body: body.clone(),
        supporting_lines: lines,
        tone: tone.to_owned(),
        icon: icon.to_owned(),
        comparison_text: body,
    }
}

fn spotify_title_of(action: &Vec<char>) -> (t: &'static str)
    ensures
        t@ == spotify_update_title(action@),
{
    if chars_eq_str(action, "play") || chars_eq_str(action, "pause") || chars_eq_str(
        action,
        "next_track",
    ) || chars_eq_str(action, "previous_track") || chars_eq_str(action, "resume_playback") {
        "Spotify playback"
    } else if chars_eq_str(action, "set_volume") {
        "Spotify volume"
    } else if chars_eq_str(action, "disconnect") {
        "Spotify disconnected"
    } else {
        "Spotify update"
    }
}

fn spotify_body_of(r: &ToolExecutionResult) -> (b: String)
    ensures
        b@ == spotify_update_body(*r),
{
    let a = chars_of(r.action.as_str());
    if !chars_eq_str(&a, "play") {
        return message_of(r);
    }
    let artists = artists_of(&r.result);
    let device = device_of(&r.result);
    match (&r.result.track_name, &artists) {
        (Some(t), Some(ar)) => {
            let mut v = chars_of("Playing ");
            append_str(&mut v, t.as_str());
            append_str(&mut v, " by ");
            append_str(&mut v, ar.as_str());
            match &device {
                Some(d) => {
                    append_str(&mut v, " on ");
                    append_str(&mut v, d.as_str());
                    append_str(&mut v, ".");
                },
                None => {
                    append_str(&mut v, ".");
                },
            }
            string_of(&v)
        },
        _ => message_of(r),
    }
}

/// The card of a Spotify result of the given status.
pub fn spotify_visible_card(result: &ToolExecutionResult, status: &str) -> (c: VisibleToolCard)
    ensures
        c@ == spec_spotify_card(*result, status@),
{
    let s = chars_of(status);
    let m = message_of(result);
    if chars_eq_str(&s, "connected") {
        make_card("spotify", &result.action, status, "Spotify connection", m, spotify_lines_of(&result.result), "positive", "spotify")
    } else if chars_eq_str(&s, "auth_started") || chars_eq_str(&s, "connecting") {
        let mut lines: Vec<String> = Vec::new();
        lines.push("A browser step is required before playback control is available.".to_owned());
        assert(strs_view(lines@) =~= seq!["A browser step is required before playback control is available."@]);
        make_card("spotify", &result.action, status, "Spotify sign-in", m, lines, "progress", "spotify")
    } else if chars_eq_str(&s, "auth_required") || chars_eq_str(&s, "auth_expired") || chars_eq_str(
        &s,
        "unconfigured",
    ) {
        make_card("spotify", &result.action, status, "Spotify needs attention", m, spotify_lines_of(&result.result), "warning", "warning")
    } else if chars_eq_str(&s, "error") || chars_eq_str(&s, "forbidden") || chars_eq_str(
        &s,
        "rate_limited",
    ) || chars_eq_str(&s, "no_available_device") || chars_eq_str(&s, "device_not_found")
        || chars_eq_str(&s, "playback_not_active") {
        make_card("spotify", &result.action, status, "Spotify couldn't complete that", m, spotify_lines_of(&result.result), "error", "error")
    } else {
        let a = chars_of(result.action.as_str());
        let title = spotify_title_of(&a);
        let body = spotify_body_of(result);
        make_card("spotify", &result.action, status, title, body, spotify_lines_of(&result.result), "neutral", "spotify")
    }
}

fn hue_lines_of(f: &ToolResultFacts) -> (r: Vec<String>)
    ensures
        strs_view(r@) == hue_lines(*f),
{
    let mut lines: Vec<String> = Vec::new();
    match f.level {
        Some(l) => {
            let mut t = chars_of("Brightness: ");
            append_decimal(&mut t, l);
            append_str(&mut t, "%");
            lines.push(string_of(&t));
        },
        None => {},
    }
    assert(strs_view(lines@) =~= match f.level {
        Some(l) => seq!["Brightness: "@ + decimal(l as nat) + "%"@],
        None => Seq::<Seq<char>>::empty(),
    });
    push_line(&mut lines, "Color: ", &f.color, "");
    push_line(&mut lines, "Scene: ", &f.scene, "");
    proof {
        reveal_strlit("");
    }
    assert(strs_view(lines@) =~= hue_lines(*f));
    lines
}

fn hue_title_of(action: &Vec<char>) -> (t: &'static str)
    ensures
        t@ == hue_title(action@),
{
    if chars_eq_str(action, "set_power") {
        "Hue lights"
    } else if chars_eq_str(action, "set_brightness") {
        "Hue brightness"
    } else if chars_eq_str(action, "set_color") {
        "Hue color"
    } else if chars_eq_str(action, "activate_scene") {
        "Hue scene"
    } else {
        "Hue update"
    }
}

/// The card of a Hue result of the given status.
pub fn hue_visible_card(result: &ToolExecutionResult, status: &str) -> (c: VisibleToolCard)
    ensures
        c@ == spec_hue_card(*result, status@),
{
    let s = chars_of(status);
    let a = chars_of(result.action.as_str());
    let error = chars_eq_str(&s, "error");
    make_card(
        "hue",
        &result.action,
        status,
        hue_title_of(&a),
        message_of(result),
        hue_lines_of(&result.result),
        if error {
            "error"
        } else {
            "positive"
        },
        if error {
            "error"
        } else {
            "hue"
        },
    )
}

impl ToolExecutionResult {
    pub fn is_success(&self) -> (r: bool)
        ensures
            r == spec_is_success(opt_seq(self.result.status)),
    {
        match &self.result.status {
            Some(s) => {
                let v = chars_of(s.as_str());
                chars_eq_str(&v, "success") || chars_eq_str(&v, "auth_started") || chars_eq_str(
                    &v,
                    "connected",
                ) || chars_eq_str(&v, "disconnected") || chars_eq_str(&v, "connecting")
                    || chars_eq_str(&v, "unconfigured")
            },
            None => false,
        }
    }

    /// The card that presents this result, by its tool, with its status (or
    /// `unknown`).
    pub fn visible_card(&self) -> (c: VisibleToolCard)
        ensures
            c@ == match self.tool {
                ToolName::Spotify => spec_spotify_card(*self, card_status(self.result)),
                ToolName::Hue => spec_hue_card(*self, card_status(self.result)),
            },
    {
        let status = match &self.result.status {
            Some(s) => s.clone(),
            None => "unknown".to_owned(),
        };
        match self.tool {
            ToolName::Spotify => spotify_visible_card(self, status.as_str()),
            ToolName::Hue => hue_visible_card(self, status.as_str()),
        }
    }
}

} // verus!
