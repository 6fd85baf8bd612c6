//! The tool catalog the overview screen shows, and the requests its buttons
//! make.
use vstd::prelude::*;

use crate::text::{append_decimal, append_str, chars_eq_str, chars_of, decimal, opt_seq, string_of};
use crate::tools::hue::spec_hue_summary;
use crate::tools::hue::hue_summary;
use crate::tools::{ToolArguments, ToolError, ToolName, ToolRequest};

verus! {

/// One action a tool's card offers, and why it is disabled where it is.
#[derive(Debug, Clone)]
pub struct ToolActionAvailability {
    pub action_id: String,
    pub label: String,
    pub enabled: bool,
    pub reason: Option<String>,
}

/// One labelled line of a tool's details.
#[derive(Debug, Clone)]
pub struct ToolDetailLine {
    pub label: String,
    pub value: String,
}

/// How a tool stands, as the overview shows it.
#[derive(Debug, Clone)]
pub struct ToolOverviewEntry {
    pub tool_id: String,
    pub display_name: String,
    pub category: String,
    pub available: bool,
    pub integrated: bool,
    pub auth_state: String,
    pub health_state: String,
    pub next_step: String,
    pub summary: String,
    pub account_label: Option<String>,
    pub capability_summary: Option<String>,
    pub detail_lines: Vec<ToolDetailLine>,
    pub actions: Vec<ToolActionAvailability>,
}

/// The tools, and which of them are available and integrated.
#[derive(Debug, Clone)]
pub struct ToolsOverview {
    pub catalog: Vec<ToolOverviewEntry>,
    pub available_tools: Vec<String>,
    pub integrated_tools: Vec<String>,
}

pub open spec fn line_view(l: ToolDetailLine) -> (Seq<char>, Seq<char>) {
    (l.label@, l.value@)
}

pub open spec fn lines_view(v: Seq<ToolDetailLine>) -> Seq<(Seq<char>, Seq<char>)> {
    v.map_values(|l: ToolDetailLine| line_view(l))
}

pub open spec fn action_view(a: ToolActionAvailability) -> (Seq<char>, Seq<char>, bool, Option<Seq<char>>) {
    (a.action_id@, a.label@, a.enabled, opt_seq(a.reason))
}

pub open spec fn actions_view(v: Seq<ToolActionAvailability>) -> Seq<(Seq<char>, Seq<char>, bool, Option<Seq<char>>)> {
    v.map_values(|a: ToolActionAvailability| action_view(a))
}

/// What the Spotify entry reads of Spotify's state: whether it is configured
/// and connected, its connection, capability and token status, whether an
/// authorisation is in progress, the account, the capability summary, the
/// device, the last authorisation and the last error.
#[derive(Debug, Clone)]
pub struct SpotifyStatusFacts {
    pub configured: bool,
    pub connected: bool,
    pub connection_status: Option<String>,
    pub capability_status: Option<String>,
    pub token_status: Option<String>,
    pub auth_in_progress: bool,
    pub account_display_name: Option<String>,
    pub spotify_user_id: Option<String>,
    pub capability_summary: Option<String>,
    pub device_name: Option<String>,
    pub last_authenticated_at: Option<String>,
    pub last_error: Option<String>,
}

pub open spec fn or_unknown(o: Option<String>) -> Seq<char> {
    match opt_seq(o) {
        Some(s) => s,
        None => "unknown"@,
    }
}

/// Where Spotify's authorisation stands.
pub open spec fn spotify_auth_state(f: SpotifyStatusFacts) -> Seq<char> {
    let cs = or_unknown(f.connection_status);
    let ts = or_unknown(f.token_status);
    if f.auth_in_progress {
        "auth_in_progress"@
    } else if cs == "connected"@ && ts == "valid"@ {
        "connected"@
    } else if cs == "expired"@ || ts == "expired"@ {
        "expired"@
    } else if cs == "error"@ || ts == "refresh_failed"@ {
        "error"@
    } else if f.configured {
        "required_not_started"@
    } else {
        "unavailable"@
    }
}

pub open spec fn degraded_capability(c: Seq<char>) -> bool {
    c == "no_available_device"@ || c == "connected_but_profile_unavailable"@ || c
        == "connected_but_playback_unavailable"@ || c == "playback_forbidden"@ || c
        == "premium_required"@ || c == "auth_required"@ || c == "auth_expired"@ || c
        == "invalid_scope"@
}

/// How healthy Spotify's capability is.
pub open spec fn spotify_health_state(f: SpotifyStatusFacts) -> Seq<char> {
    let c = or_unknown(f.capability_status);
    if c == "connected"@ {
        "healthy"@
    } else if degraded_capability(c) {
        "degraded"@
    } else if f.configured {
        "unavailable"@
    } else {
        "error"@
    }
}

/// What the user should do next with Spotify.
pub open spec fn spotify_next_step(f: SpotifyStatusFacts) -> Seq<char> {
    let c = or_unknown(f.capability_status);
    if c == "connected"@ {
        "ready"@
    } else if c == "no_available_device"@ {
        "missing_target_device"@
    } else if c == "invalid_scope"@ || c == "auth_expired"@ {
        "reconnect_required"@
    } else if c == "premium_required"@ {
        "configuration_required"@
    } else if c == "playback_forbidden"@ {
        "temporary_error"@
    } else if f.connected {
        "ready"@
    } else if f.configured {
        "auth_required"@
    } else {
        "configuration_required"@
    }
}

/// The account Spotify is connected as: its display name, else its user id.
pub open spec fn spotify_account(f: SpotifyStatusFacts) -> Option<Seq<char>> {
    match opt_seq(f.account_display_name) {
        Some(a) => Some(a),
        None => opt_seq(f.spotify_user_id),
    }
}

pub open spec fn detail_if(o: Option<Seq<char>>, label: Seq<char>) -> Seq<(Seq<char>, Seq<char>)> {
    match o {
        Some(v) => seq![(label, v)],
        None => Seq::empty(),
    }
}

/// Spotify's summary: its capability summary, else the account it is
/// connected as, else whether it is configured at all.
pub open spec fn spotify_summary(f: SpotifyStatusFacts) -> Seq<char> {
    match opt_seq(f.capability_summary) {
        Some(s) => s,
        None => match spotify_account(f) {
            Some(a) => "Connected as "@ + a,
            None => if f.configured {
                "Spotify is available but not connected."@
            } else {
                "Spotify is not configured in this build."@
            },
        },
    }
}

/// Spotify's actions: connect (reconnect once integrated; disabled with a
/// reason when unconfigured), refresh and disconnect, enabled when configured.
pub open spec fn spotify_actions(f: SpotifyStatusFacts) -> Seq<(Seq<char>, Seq<char>, bool, Option<Seq<char>>)> {
    seq![
        (
            "begin_auth"@,
            if f.connected {
                "Reconnect"@
            } else {
                "Connect"@
            },
            f.configured,
            if f.configured {
                None
            } else {
                Some("Spotify config is missing."@)
            },
        ),
        ("refresh_state"@, "Refresh"@, f.configured, None),
        ("disconnect"@, "Disconnect"@, f.configured, None),
    ]
}

pub open spec fn spotify_entry_ok(e: ToolOverviewEntry, f: SpotifyStatusFacts) -> bool {
    &&& e.tool_id@ == "spotify"@
    &&& e.display_name@ == "Spotify"@
    &&& e.category@ == "media"@
    &&& e.available == f.configured
    &&& e.integrated == f.connected
    &&& e.auth_state@ == spotify_auth_state(f)
    &&& e.health_state@ == spotify_health_state(f)
    &&& e.next_step@ == spotify_next_step(f)
    &&& e.summary@ == spotify_summary(f)
    &&& opt_seq(e.account_label) == spotify_account(f)
    &&& opt_seq(e.capability_summary) == opt_seq(f.capability_summary)
    &&& lines_view(e.detail_lines@) == detail_if(opt_seq(f.device_name), "Device"@) + detail_if(
        opt_seq(f.last_authenticated_at),
        "Last auth"@,
    ) + detail_if(opt_seq(f.last_error), "Last issue"@)
    &&& actions_view(e.actions@) == spotify_actions(f)
}

fn copy_opt(o: &Option<String>) -> (r: Option<String>)
    ensures
        opt_seq(r) == opt_seq(*o),
{
    match o {
        Some(s) => Some(s.clone()),
        None => None,
    }
}

fn status_text(o: &Option<String>) -> (r: Vec<char>)
    ensures
        r@ == or_unknown(*o),
{
    match o {
        Some(s) => chars_of(s.as_str()),
        None => chars_of("unknown"),
    }
}

fn push_detail(lines: &mut Vec<ToolDetailLine>, label: &str, value: &Option<String>)
    ensures
        lines_view(final(lines)@) == lines_view(old(lines)@) + detail_if(opt_seq(*value), label@),
{
    let ghost start = lines_view(lines@);
    match value {
        Some(v) => {
            lines.push(ToolDetailLine { label: label.to_owned(), value: v.clone() });
            assert(lines_view(lines@) =~= start + seq![(label@, v@)]);
        },
        None => {
            assert(start + Seq::<(Seq<char>, Seq<char>)>::empty() =~= start);
        },
    }
}

fn auth_state_of(f: &SpotifyStatusFacts) -> (r: &'static str)
    ensures
        r@ == spotify_auth_state(*f),
{
    let cs = status_text(&f.connection_status);
    let ts = status_text(&f.token_status);
    if f.auth_in_progress {
        "auth_in_progress"
    } else if chars_eq_str(&cs, "connected") && chars_eq_str(&ts, "valid") {
        "connected"
    } else if chars_eq_str(&cs, "expired") || chars_eq_str(&ts, "expired") {
        "expired"
    } else if chars_eq_str(&cs, "error") || chars_eq_str(&ts, "refresh_failed") {
        "error"
    } else if f.configured {
        "required_not_started"
    } else {
        "unavailable"
    }
}

fn health_state_of(f: &SpotifyStatusFacts) -> (r: &'static str)
    ensures
        r@ == spotify_health_state(*f),
{
    let c = status_text(&f.capability_status);
    if chars_eq_str(&c, "connected") {
        "healthy"
    } else if chars_eq_str(&c, "no_available_device") || chars_eq_str(
        &c,
        "connected_but_profile_unavailable",
    ) || chars_eq_str(&c, "connected_but_playback_unavailable") || chars_eq_str(
        &c,
        "playback_forbidden",
    ) || chars_eq_str(&c, "premium_required") || chars_eq_str(&c, "auth_required")
        || chars_eq_str(&c, "auth_expired") || chars_eq_str(&c, "invalid_scope") {
        "degraded"
    } else if f.configured {
        "unavailable"
    } else {
        "error"
    }
}

fn next_step_of(f: &SpotifyStatusFacts) -> (r: &'static str)
    ensures
        r@ == spotify_next_step(*f),
{
    let c = status_text(&f.capability_status);
    if chars_eq_str(&c, "connected") {
        "ready"
    } else if chars_eq_str(&c, "no_available_device") {
        "missing_target_device"
    } else if chars_eq_str(&c, "invalid_scope") || chars_eq_str(&c, "auth_expired") {
        "reconnect_required"
    } else if chars_eq_str(&c, "premium_required") {
        "configuration_required"
    } else if chars_eq_str(&c, "playback_forbidden") {
        "temporary_error"
    } else if f.connected {
        "ready"
    } else if f.configured {
        "auth_required"
    } else {
        "configuration_required"
    }
}

/// Spotify's entry in the catalog, from what its state says.
pub fn spotify_overview_entry(f: &SpotifyStatusFacts) -> (e: ToolOverviewEntry)
    ensures
        spotify_entry_ok(e, *f),
{
    let account = match &f.account_display_name {
        Some(a) => Some(a.clone()),
        None => copy_opt(&f.spotify_user_id),
    };
    let summary = match &f.capability_summary {
        Some(s) => s.clone(),
        None => match &account {
            Some(a) => {
                let mut v = chars_of("Connected as ");
                append_str(&mut v, a.as_str());
                string_of(&v)
            },
            None => if f.configured {
                "Spotify is available but not connected.".to_owned()
            } else {
                "Spotify is not configured in this build.".to_owned()
            },
        },
    };
    let mut detail_lines: Vec<ToolDetailLine> = Vec::new();
    assert(lines_view(detail_lines@) =~= Seq::<(Seq<char>, Seq<char>)>::empty());
    push_detail(&mut detail_lines, "Device", &f.device_name);
    push_detail(&mut detail_lines, "Last auth", &f.last_authenticated_at);
    push_detail(&mut detail_lines, "Last issue", &f.last_error);
    let mut actions: Vec<ToolActionAvailability> = Vec::new();
    actions.push(
        ToolActionAvailability {
            action_id: "begin_auth".to_owned(),
            label: if f.connected {
                "Reconnect".to_owned()
            } else {
                "Connect".to_owned()
            },
            enabled: f.configured,
            reason: if f.configured {
                None
            } else {
                Some("Spotify config is missing.".to_owned())
            },
        },
    );
    actions.push(
        ToolActionAvailability {
            action_id: "refresh_state".to_owned(),
            label: "Refresh".to_owned(),
            enabled: f.configured,
            reason: None,
        },
    );
    actions.push(
        ToolActionAvailability {
            action_id: "disconnect".to_owned(),
            label: "Disconnect".to_owned(),
            enabled: f.configured,
            reason: None,
        },
    );
    assert(actions_view(actions@) =~= spotify_actions(*f));
    ToolOverviewEntry {
        tool_id: "spotify".to_owned(),
        display_name: "Spotify".to_owned(),
        category: "media".to_owned(),
        available: f.configured,
        integrated: f.connected,
        auth_state: auth_state_of(f).to_owned(),
        health_state: health_state_of(f).to_owned(),
        next_step: next_step_of(f).to_owned(),
        summary,
        account_label: account,
        capability_summary: copy_opt(&f.capability_summary),
        detail_lines,
        actions,
    }
}

/// Hue's entry in the catalog, from its stored state (off, half brightness
/// and warm white where it says nothing): always available and integrated,
/// its summary and power, brightness and colour as details, no actions.
pub fn hue_overview_entry(power: Option<bool>, brightness: Option<u64>, color: Option<&str>) -> (e:
    ToolOverviewEntry)
    ensures
        ({
            let p = match power {
                Some(v) => v,
                None => false,
            };
            let b = match brightness {
                Some(v) => v,
                None => 50u64,
            };
            let c = match color {
                Some(v) => v@,
                None => "warm-white"@,
            };
            &&& e.tool_id@ == "hue"@
            &&& e.display_name@ == "Hue"@
            &&& e.category@ == "home"@
            &&& e.available
            &&& e.integrated
            &&& e.auth_state@ == "not_required"@
            &&& e.health_state@ == "healthy"@
            &&& e.next_step@ == "ready"@
            &&& e.summary@ == spec_hue_summary(p, b, c)
            &&& e.account_label is None
            &&& opt_seq(e.capability_summary) == Some("Local capability adapter"@)
            &&& lines_view(e.detail_lines@) == seq![
                ("Power"@, if p {
                    "On"@
                } else {
                    "Off"@
                }),
                ("Brightness"@, decimal(b as nat) + "%"@),
                ("Color"@, c),
            ]
            &&& e.actions@.len() == 0
        }),
{
    let p = match power {
        Some(v) => v,
        None => false,
    };
    let b = match brightness {
        Some(v) => v,
        None => 50u64,
    };
    let c = match color {
        Some(v) => v.to_owned(),
        None => "warm-white".to_owned(),
    };
    let mut level = Vec::new();
    append_decimal(&mut level, b);
    append_str(&mut level, "%");
    let mut detail_lines: Vec<ToolDetailLine> = Vec::new();
    detail_lines.push(
        ToolDetailLine {
            label: "Power".to_owned(),
            value: if p {
                "On".to_owned()
            } else {
                "Off".to_owned()
            },
        },
    );
    detail_lines.push(ToolDetailLine { label: "Brightness".to_owned(), value: string_of(&level) });
    detail_lines.push(ToolDetailLine { label: "Color".to_owned(), value: c.clone() });
    let ghost expected = seq![
        ("Power"@, if p {
            "On"@
        } else {
            "Off"@
        }),
        ("Brightness"@, decimal(b as nat) + "%"@),
        ("Color"@, c@),
    ];
    assert(lines_view(detail_lines@) =~= expected);
    ToolOverviewEntry {
        tool_id: "hue".to_owned(),
        display_name: "Hue".to_owned(),
        category: "home".to_owned(),
        available: true,
        integrated: true,
        auth_state: "not_required".to_owned(),
        health_state: "healthy".to_owned(),
        next_step: "ready".to_owned(),
        summary: hue_summary(p, b, c.as_str()),
        account_label: None,
        capability_summary: Some("Local capability adapter".to_owned()),
        detail_lines,
        actions: Vec::new(),
    }
}

pub open spec fn available_ids(c: Seq<ToolOverviewEntry>) -> Seq<Seq<char>>
    decreases c.len(),
{
    if c.len() == 0 {
        Seq::empty()
    } else if c.last().available {
        available_ids(c.drop_last()).push(c.last().tool_id@)
    } else {
        available_ids(c.drop_last())
    }
}

pub open spec fn integrated_ids(c: Seq<ToolOverviewEntry>) -> Seq<Seq<char>>
    decreases c.len(),
{
    if c.len() == 0 {
        Seq::empty()
    } else if c.last().integrated {
        integrated_ids(c.drop_last()).push(c.last().tool_id@)
    } else {
        integrated_ids(c.drop_last())
    }
}

/// The overview of a catalog: the entries, and the ids of the available and
/// of the integrated ones, in order.
pub fn tools_overview(catalog: Vec<ToolOverviewEntry>) -> (r: ToolsOverview)
    ensures
        r.catalog@ == catalog@,
        crate::text::strs_view(r.available_tools@) == available_ids(catalog@),
        crate::text::strs_view(r.integrated_tools@) == integrated_ids(catalog@),
{
    let mut available: Vec<String> = Vec::new();
    let mut integrated: Vec<String> = Vec::new();
    let mut i: usize = 0;
    while i < catalog.len()
        invariant
            i <= catalog.len(),
            crate::text::strs_view(available@) == available_ids(catalog@.take(i as int)),
            crate::text::strs_view(integrated@) == integrated_ids(catalog@.take(i as int)),
        decreases catalog.len() - i,
    {
        proof {
            assert(catalog@.take(i + 1).drop_last() =~= catalog@.take(i as int));
            assert(catalog@.take(i + 1).last() == catalog@[i as int]);
        }
        if catalog[i].available {
            available.push(catalog[i].tool_id.clone());
        }
        if catalog[i].integrated {
            integrated.push(catalog[i].tool_id.clone());
        }
        i = i + 1;
        assert(crate::text::strs_view(available@) =~= available_ids(catalog@.take(i as int)));
        assert(crate::text::strs_view(integrated@) =~= integrated_ids(catalog@.take(i as int)));
    }
    assert(catalog@.take(catalog.len() as int) =~= catalog@);
    ToolsOverview { catalog, available_tools: available, integrated_tools: integrated }
}

// ---------------------------------------------------------------------------
// Requests the overview's buttons make
// ---------------------------------------------------------------------------

pub open spec fn request_is(r: ToolRequest, tool: ToolName, action: Seq<char>) -> bool {
    r.tool == tool && r.action@ == action
}

/// The request that starts a tool's authorisation: Spotify's `start_auth`;
/// Hue has none, and an unknown tool is refused.
pub fn begin_tool_auth_request(tool: &str) -> (r: Result<ToolRequest, ToolError>)
    ensures
        match ToolName::spec_parse(tool@) {
            Ok(ToolName::Spotify) => r matches Ok(req) && request_is(req, ToolName::Spotify, "start_auth"@)
                && req.arguments is Empty,
            Ok(ToolName::Hue) => r matches Err(ToolError::AuthNotSupported(t)) && t@ == tool@,
            Err(n) => r matches Err(ToolError::UnsupportedTool(e)) && e@ == n,
        },
{
    match ToolName::parse(tool) {
        Ok(ToolName::Spotify) => Ok(
            ToolRequest {
                tool: ToolName::Spotify,
                action: "start_auth".to_owned(),
                arguments: ToolArguments::Empty,
            },
        ),
        Ok(ToolName::Hue) => Err(ToolError::AuthNotSupported(tool.to_owned())),
        Err(e) => Err(e),
    }
}

/// The request that disconnects a tool: Spotify's `disconnect`; Hue cannot
/// be disconnected, and an unknown tool is refused.
pub fn disconnect_tool_request(tool: &str) -> (r: Result<ToolRequest, ToolError>)
    ensures
        match ToolName::spec_parse(tool@) {
            Ok(ToolName::Spotify) => r matches Ok(req) && request_is(req, ToolName::Spotify, "disconnect"@)
                && req.arguments is Empty,
            Ok(ToolName::Hue) => r matches Err(ToolError::DisconnectNotSupported(t)) && t@ == tool@,
            Err(n) => r matches Err(ToolError::UnsupportedTool(e)) && e@ == n,
        },
{
    match ToolName::parse(tool) {
        Ok(ToolName::Spotify) => Ok(
            ToolRequest {
                tool: ToolName::Spotify,
                action: "disconnect".to_owned(),
                arguments: ToolArguments::Empty,
            },
        ),
        Ok(ToolName::Hue) => Err(ToolError::DisconnectNotSupported(tool.to_owned())),
        Err(e) => Err(e),
    }
}

/// How a tool's state is refreshed.
#[derive(Debug, Clone)]
pub enum RefreshPlan {
    /// Run this request.
    Run(ToolRequest),
    /// Read Hue's stored state (see `hue_status_result`).
    HueStatus,
}

/// Spotify refreshes by asking its connection state; Hue reads its stored
/// state; an unknown tool is refused.
pub fn refresh_tool_state_plan(tool: &str) -> (r: Result<RefreshPlan, ToolError>)
    ensures
        match ToolName::spec_parse(tool@) {
            Ok(ToolName::Spotify) => r matches Ok(RefreshPlan::Run(req)) && request_is(
                req,
                ToolName::Spotify,
                "get_connection_state"@,
            ) && req.arguments is Empty,
            Ok(ToolName::Hue) => r matches Ok(RefreshPlan::HueStatus),
            Err(n) => r matches Err(ToolError::UnsupportedTool(e)) && e@ == n,
        },
{
    match ToolName::parse(tool) {
        Ok(ToolName::Spotify) => Ok(
            RefreshPlan::Run(
                ToolRequest {
                    tool: ToolName::Spotify,
                    action: "get_connection_state".to_owned(),
                    arguments: ToolArguments::Empty,
                },
            ),
        ),
        Ok(ToolName::Hue) => Ok(RefreshPlan::HueStatus),
        Err(e) => Err(e),
    }
}

/// The request that completes a tool's authorisation with the address it
/// called back to: Spotify's `handle_callback`; Hue takes no callbacks, and
/// an unknown tool is refused.
pub fn complete_tool_auth_callback_request(tool: &str, callback_url: &str) -> (r: Result<
    ToolRequest,
    ToolError,
>)
    ensures
        match ToolName::spec_parse(tool@) {
            Ok(ToolName::Spotify) => r matches Ok(req) && request_is(
                req,
                ToolName::Spotify,
                "handle_callback"@,
            ) && (req.arguments matches ToolArguments::CallbackUrl(u) && u@ == callback_url@),
            Ok(ToolName::Hue) => r matches Err(ToolError::AuthCallbackNotSupported(t)) && t@
                == tool@,
            Err(n) => r matches Err(ToolError::UnsupportedTool(e)) && e@ == n,
        },
{
    match ToolName::parse(tool) {
        Ok(ToolName::Spotify) => Ok(
            ToolRequest {
                tool: ToolName::Spotify,
                action: "handle_callback".to_owned(),
                arguments: ToolArguments::CallbackUrl(callback_url.to_owned()),
            },
        ),
        Ok(ToolName::Hue) => Err(ToolError::AuthCallbackNotSupported(tool.to_owned())),
        Err(e) => Err(e),
    }
}

/// A request for a tool named by text; an unknown tool is refused.
pub fn named_request(tool: &str, action: &str, arguments: ToolArguments) -> (r: Result<
    ToolRequest,
    ToolError,
>)
    ensures
        match ToolName::spec_parse(tool@) {
            Ok(t) => r matches Ok(req) && request_is(req, t, action@) && req.arguments == arguments,
            Err(n) => r matches Err(ToolError::UnsupportedTool(e)) && e@ == n,
        },
{
    match ToolName::parse(tool) {
        Ok(t) => Ok(ToolRequest { tool: t, action: action.to_owned(), arguments }),
        Err(e) => Err(e),
    }
}

} // verus!
