use rust_core::tools::cards::{external_auth_url, ToolExecutionResult, ToolResultFacts};
use rust_core::tools::catalog::{
    begin_tool_auth_request, complete_tool_auth_callback_request, disconnect_tool_request,
    hue_overview_entry, named_request, refresh_tool_state_plan, spotify_overview_entry,
    tools_overview, RefreshPlan, SpotifyStatusFacts,
};
use rust_core::tools::hue::{default_hue_state, execute_hue, hue_status_result, HueArguments};
use rust_core::tools::{ToolArguments, ToolError, ToolName};

fn facts(status: Option<&str>, message: Option<&str>) -> ToolResultFacts {
    ToolResultFacts {
        status: status.map(|s| s.to_owned()),
        message: message.map(|s| s.to_owned()),
        account_display_name: None,
        target_device_name: None,
        device_name: None,
        track_name: None,
        track_artists: None,
        level: None,
        color: None,
        scene: None,
        authorize_url: None,
    }
}

fn spotify(action: &str, result: ToolResultFacts) -> ToolExecutionResult {
    ToolExecutionResult {
        tool: ToolName::Spotify,
        action: action.to_owned(),
        summary: "Summary text.".to_owned(),
        result,
    }
}

fn no_args() -> HueArguments {
    HueArguments { on: None, level: None, color: None, scene: None }
}

#[test]
fn success_statuses() {
    for status in ["success", "auth_started", "connected", "disconnected", "connecting", "unconfigured"] {
        assert!(spotify("x", facts(Some(status), None)).is_success(), "{status}");
    }
    assert!(!spotify("x", facts(Some("error"), None)).is_success());
    assert!(!spotify("x", facts(None, None)).is_success());
}

#[test]
fn spotify_play_card_names_track_artists_and_device() {
    let mut result = facts(Some("success"), Some("Started playback."));
    result.track_name = Some("Song".to_owned());
    result.track_artists = Some(vec!["A".to_owned(), "B".to_owned()]);
    result.target_device_name = Some("Denon".to_owned());
    result.device_name = Some("Phone".to_owned());
    result.account_display_name = Some("mocha".to_owned());
    let card = spotify("play", result).visible_card();
    assert_eq!(card.title, "Spotify playback");
    assert_eq!(card.body, "Playing Song by A, B on Denon.");
    assert_eq!(card.comparison_text, card.body);
    assert_eq!(card.supporting_lines, vec!["Connected as mocha.".to_owned(), "Playback device: Denon".to_owned()]);
    assert_eq!(card.tone, "neutral");
    assert_eq!(card.icon, "spotify");
    assert_eq!(card.status, "success");

    let mut bare = facts(Some("success"), None);
    bare.track_name = Some("Song".to_owned());
    bare.track_artists = Some(vec!["A".to_owned()]);
    let card = spotify("play", bare).visible_card();
    assert_eq!(card.body, "Playing Song by A.");
    assert!(card.supporting_lines.is_empty());

    let mut no_artists = facts(Some("success"), None);
    no_artists.track_name = Some("Song".to_owned());
    no_artists.track_artists = Some(vec![]);
    assert_eq!(spotify("play", no_artists).visible_card().body, "Summary text.");
}

#[test]
fn spotify_cards_by_status() {
    let card = spotify("start_auth", facts(Some("auth_started"), Some("Open the link."))).visible_card();
    assert_eq!(card.title, "Spotify sign-in");
    assert_eq!(
        card.supporting_lines,
        vec!["A browser step is required before playback control is available.".to_owned()]
    );
    assert_eq!(card.tone, "progress");
    let card = spotify("play", facts(Some("auth_expired"), Some("Sign in again."))).visible_card();
    assert_eq!((card.title.as_str(), card.tone.as_str(), card.icon.as_str()), ("Spotify needs attention", "warning", "warning"));
    let card = spotify("play", facts(Some("no_available_device"), None)).visible_card();
    assert_eq!(card.title, "Spotify couldn't complete that");
    assert_eq!(card.body, "Summary text.");
    assert_eq!(card.icon, "error");
    let card = spotify("get_connection_state", facts(Some("connected"), Some("All set."))).visible_card();
    assert_eq!((card.title.as_str(), card.tone.as_str()), ("Spotify connection", "positive"));
    let card = spotify("set_volume", facts(None, Some("Volume 30."))).visible_card();
    assert_eq!(card.status, "unknown");
    assert_eq!(card.title, "Spotify volume");
    assert_eq!(spotify("disconnect", facts(Some("disconnected"), None)).visible_card().title, "Spotify disconnected");
    assert_eq!(spotify("search", facts(Some("success"), None)).visible_card().title, "Spotify update");
}

#[test]
fn hue_actions_change_state_and_report() {
    let state = default_hue_state();
    assert_eq!((state.power, state.brightness, state.color.as_str()), (false, 50, "warm-white"));
    let (on, result) = execute_hue(&state, "set_power", &HueArguments { on: Some(true), ..no_args() }).unwrap();
    assert!(on.power);
    assert_eq!(result.summary, "Hue lights turned on.");
    assert_eq!(result.result.status.as_deref(), Some("success"));
    let card = result.visible_card();
    assert_eq!((card.title.as_str(), card.tone.as_str(), card.icon.as_str()), ("Hue lights", "positive", "hue"));
    let (bright, result) = execute_hue(&on, "set_brightness", &HueArguments { level: Some(250), ..no_args() }).unwrap();
    assert_eq!(bright.brightness, 100);
    assert_eq!(result.summary, "Hue brightness set to 100.");
    assert_eq!(result.visible_card().supporting_lines, vec!["Brightness: 100%".to_owned()]);
    let (blue, result) = execute_hue(&bright, "set_color", &HueArguments { color: Some("blue".to_owned()), ..no_args() }).unwrap();
    assert_eq!(blue.color, "blue");
    assert_eq!(result.summary, "Hue color changed to blue.");
    let (scene, result) = execute_hue(&blue, "activate_scene", &HueArguments { scene: Some("Relax".to_owned()), ..no_args() }).unwrap();
    assert_eq!(scene.last_scene.as_deref(), Some("Relax"));
    assert_eq!(result.summary, "Hue scene Relax activated.");
    assert_eq!(result.visible_card().title, "Hue scene");
}

#[test]
fn hue_refusals_name_what_is_missing() {
    let state = default_hue_state();
    let message = |action: &str| execute_hue(&state, action, &no_args()).err().map(|e| e.message());
    assert_eq!(message("set_power").as_deref(), Some("hue.set_power requires a boolean on"));
    assert_eq!(message("set_brightness").as_deref(), Some("hue.set_brightness requires a numeric level"));
    assert_eq!(message("set_color").as_deref(), Some("hue.set_color requires a color"));
    assert_eq!(message("activate_scene").as_deref(), Some("hue.activate_scene requires a scene"));
    assert_eq!(message("dance").as_deref(), Some("unsupported Hue action: dance"));
}

#[test]
fn hue_status_and_overview_read_defaults() {
    let status = hue_status_result(None, None, None);
    assert_eq!(status.action, "refresh_state");
    assert_eq!(status.summary, "Hue lights are off.");
    assert_eq!(status.visible_card().supporting_lines, vec!["Color: warm-white".to_owned()]);
    let lit = hue_status_result(Some(true), Some(70), Some("red"));
    assert_eq!(lit.summary, "Hue lights are on at 70% in red.");
    let entry = hue_overview_entry(Some(true), Some(70), Some("red"));
    assert_eq!(entry.summary, "Hue lights are on at 70% in red.");
    let details: Vec<(String, String)> = entry.detail_lines.iter().map(|l| (l.label.clone(), l.value.clone())).collect();
    assert_eq!(
        details,
        vec![
            ("Power".to_owned(), "On".to_owned()),
            ("Brightness".to_owned(), "70%".to_owned()),
            ("Color".to_owned(), "red".to_owned()),
        ]
    );
    assert!(entry.available && entry.integrated);
    assert_eq!(entry.capability_summary.as_deref(), Some("Local capability adapter"));
}

fn spotify_facts() -> SpotifyStatusFacts {
    SpotifyStatusFacts {
        configured: true,
        connected: false,
        connection_status: None,
        capability_status: None,
        token_status: None,
        auth_in_progress: false,
        account_display_name: None,
        spotify_user_id: None,
        capability_summary: None,
        device_name: None,
        last_authenticated_at: None,
        last_error: None,
    }
}

#[test]
fn spotify_overview_states() {
    let entry = spotify_overview_entry(&spotify_facts());
    assert_eq!(entry.auth_state, "required_not_started");
    assert_eq!(entry.health_state, "unavailable");
    assert_eq!(entry.next_step, "auth_required");
    assert_eq!(entry.summary, "Spotify is available but not connected.");
    assert_eq!(entry.actions[0].label, "Connect");
    assert!(entry.actions.iter().all(|a| a.enabled));

    let mut connected = spotify_facts();
    connected.connected = true;
    connected.connection_status = Some("connected".to_owned());
    connected.token_status = Some("valid".to_owned());
    connected.capability_status = Some("no_available_device".to_owned());
    connected.spotify_user_id = Some("user-1".to_owned());
    connected.device_name = Some("Denon".to_owned());
    connected.last_error = Some("timeout".to_owned());
    let entry = spotify_overview_entry(&connected);
    assert_eq!(entry.auth_state, "connected");
    assert_eq!(entry.health_state, "degraded");
    assert_eq!(entry.next_step, "missing_target_device");
    assert_eq!(entry.account_label.as_deref(), Some("user-1"));
    assert_eq!(entry.summary, "Connected as user-1");
    assert_eq!(entry.actions[0].label, "Reconnect");
    let labels: Vec<&str> = entry.detail_lines.iter().map(|l| l.label.as_str()).collect();
    assert_eq!(labels, vec!["Device", "Last issue"]);

    let mut off = spotify_facts();
    off.configured = false;
    off.token_status = Some("expired".to_owned());
    let entry = spotify_overview_entry(&off);
    assert_eq!(entry.auth_state, "expired");
    assert_eq!(entry.health_state, "error");
    assert_eq!(entry.next_step, "configuration_required");
    assert_eq!(entry.summary, "Spotify is not configured in this build.");
    assert_eq!(entry.actions[0].reason.as_deref(), Some("Spotify config is missing."));
    assert!(!entry.actions[1].enabled);

    let mut busy = spotify_facts();
    busy.auth_in_progress = true;
    busy.connection_status = Some("error".to_owned());
    busy.capability_summary = Some("Waiting for sign-in.".to_owned());
    let entry = spotify_overview_entry(&busy);
    assert_eq!(entry.auth_state, "auth_in_progress");
    assert_eq!(entry.summary, "Waiting for sign-in.");
}

#[test]
fn tools_overview_lists_available_and_integrated() {
    let overview = tools_overview(vec![
        hue_overview_entry(None, None, None),
        spotify_overview_entry(&spotify_facts()),
    ]);
    assert_eq!(overview.catalog.len(), 2);
    assert_eq!(overview.available_tools, vec!["hue".to_owned(), "spotify".to_owned()]);
    assert_eq!(overview.integrated_tools, vec!["hue".to_owned()]);
}

#[test]
fn tool_buttons_build_requests_or_refuse() {
    let auth = begin_tool_auth_request(" Spotify ").unwrap();
    assert_eq!((auth.tool, auth.action.as_str()), (ToolName::Spotify, "start_auth"));
    assert_eq!(
        begin_tool_auth_request("Hue").err().map(|e| e.message()).as_deref(),
        Some("tool does not support authentication: Hue")
    );
    assert_eq!(disconnect_tool_request("spotify").unwrap().action, "disconnect");
    assert_eq!(
        disconnect_tool_request("hue").err().map(|e| e.message()).as_deref(),
        Some("tool does not support disconnect: hue")
    );
    match refresh_tool_state_plan("spotify").unwrap() {
        RefreshPlan::Run(request) => assert_eq!(request.action, "get_connection_state"),
        RefreshPlan::HueStatus => panic!("spotify refreshes by request"),
    }
    assert!(matches!(refresh_tool_state_plan("HUE"), Ok(RefreshPlan::HueStatus)));
    let callback = complete_tool_auth_callback_request("spotify", "app://cb?code=1").unwrap();
    assert_eq!(callback.action, "handle_callback");
    assert!(matches!(callback.arguments, ToolArguments::CallbackUrl(ref u) if u == "app://cb?code=1"));
    assert_eq!(
        complete_tool_auth_callback_request("hue", "x").err().map(|e| e.message()).as_deref(),
        Some("tool does not support auth callbacks: hue")
    );
    let named = named_request("hue", "set_power", ToolArguments::Power(true)).unwrap();
    assert_eq!((named.tool, named.action.as_str()), (ToolName::Hue, "set_power"));
    assert!(matches!(named_request("lamp", "x", ToolArguments::Empty), Err(ToolError::UnsupportedTool(ref n)) if n == "lamp"));
}

#[test]
fn only_a_started_authorisation_opens_its_address() {
    let mut started = facts(Some("auth_started"), None);
    started.authorize_url = Some("https://accounts.example/authorize?x=1".to_owned());
    assert_eq!(
        external_auth_url(&spotify("begin_auth", started.clone())).as_deref(),
        Some("https://accounts.example/authorize?x=1")
    );
    let mut done = started.clone();
    done.status = Some("success".to_owned());
    assert_eq!(external_auth_url(&spotify("begin_auth", done)), None);
    assert_eq!(external_auth_url(&spotify("begin_auth", facts(Some("auth_started"), None))), None);
}

#[test]
fn hue_actions_touch_only_their_aspect_and_keep_brightness_in_range() {
    let state = default_hue_state();
    let (blue, _) = execute_hue(&state, "set_color", &HueArguments { color: Some("blue".to_owned()), ..no_args() }).unwrap();
    assert_eq!((blue.power, blue.brightness, blue.last_scene.clone()), (state.power, state.brightness, None));
    let (dim, _) = execute_hue(&blue, "set_brightness", &HueArguments { level: Some(7), ..no_args() }).unwrap();
    assert_eq!((dim.power, dim.brightness, dim.color.as_str()), (false, 7, "blue"));
    let (max, _) = execute_hue(&dim, "set_brightness", &HueArguments { level: Some(u64::MAX), ..no_args() }).unwrap();
    assert_eq!(max.brightness, 100);
    assert!(execute_hue(&max, "set_power", &no_args()).is_err());
}
