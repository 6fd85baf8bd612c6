use rust_core::model_runtime::profiles::{
    can_accept_turns, cloud_profile_entry, needs_gateway, runtime_overview, CloudProfileCandidate,
    CloudProfileRegistry,
};
use rust_core::model_runtime::{DisabledNanoAdapter, NanoAvailability};

fn candidate(id: &str, label: Option<&str>, api_key: &str, enabled: bool) -> CloudProfileCandidate {
    CloudProfileCandidate {
        id: id.to_owned(),
        label: label.map(|l| l.to_owned()),
        provider: "openai".to_owned(),
        model: "gpt-5-mini".to_owned(),
        enabled,
        api_key: api_key.to_owned(),
    }
}

#[test]
fn runtime_marks_placeholder_cloud_profiles_unavailable_and_fails_locally() {
    let profile = CloudProfileCandidate {
        id: "gemini_flash_lite".to_owned(),
        label: Some("Gemini Flash Lite".to_owned()),
        provider: "gemini".to_owned(),
        model: "gemini-2.5-flash-lite".to_owned(),
        enabled: true,
        api_key: "YOUR_GEMINI_KEY".to_owned(),
    };
    assert!(!needs_gateway(&profile));
    let registry = CloudProfileRegistry::new(
        vec![cloud_profile_entry(&profile, false)],
        Some("gemini_flash_lite"),
    );
    let nano = DisabledNanoAdapter::new("Nano is unavailable.").snapshot();
    let overview = runtime_overview(true, &nano, &registry);
    let selected = overview
        .cloud_profiles
        .iter()
        .find(|profile| profile.id == "gemini_flash_lite")
        .expect("missing profile summary");
    assert!(!selected.available);
    assert!(selected.selected);
    let error = registry.cloud_target().expect_err("placeholder key should fail before provider call");
    assert!(error.contains("Gemini Flash Lite is missing a valid API key."));
}

#[test]
fn runtime_accepts_turns_when_cloud_is_available_even_without_nano() {
    let profile = candidate("openai_mini", Some("OpenAI Mini"), "test-key", true);
    assert!(needs_gateway(&profile));
    let registry = CloudProfileRegistry::new(vec![cloud_profile_entry(&profile, true)], Some("openai_mini"));
    let nano = DisabledNanoAdapter::new("Nano is unavailable.").snapshot();
    assert!(can_accept_turns(nano.availability, &registry));
    assert_eq!(registry.cloud_target(), Ok("openai_mini".to_owned()));
}

#[test]
fn registry_orders_filters_and_selects() {
    let entries = vec![
        cloud_profile_entry(&candidate("zeta", None, "key-z", true), true),
        cloud_profile_entry(&candidate("alpha_one", None, "YOUR_KEY", true), false),
        cloud_profile_entry(&candidate("beta", Some("Beta"), "key-b", false), true),
        cloud_profile_entry(&candidate("mid", None, "key-m", true), false),
    ];
    assert_eq!(entries[1].summary.label, "Alpha One");
    assert_eq!(
        entries[3].unavailable_reason.as_deref(),
        Some("failed to initialize cloud profile mid")
    );
    let mut registry = CloudProfileRegistry::new(entries, Some("missing"));
    let ids: Vec<&str> = registry.profiles.iter().map(|p| p.summary.id.as_str()).collect();
    assert_eq!(ids, vec!["alpha_one", "mid", "zeta"]);
    // the requested profile is not offered: the first available one is selected
    assert_eq!(registry.selected.as_deref(), Some("zeta"));
    assert_eq!(registry.default_selected_id().as_deref(), Some("alpha_one"));
    assert_eq!(registry.current().map(|p| p.summary.id.as_str()), Some("zeta"));
    assert_eq!(registry.cloud_target(), Ok("zeta".to_owned()));
    assert_eq!(registry.selected_label().as_deref(), Some("Zeta"));
    assert_eq!(registry.select("beta"), Err("cloud profile beta is unavailable".to_owned()));
    assert_eq!(registry.selected.as_deref(), Some("zeta"));
    assert_eq!(registry.select("mid"), Ok(()));
    assert_eq!(
        registry.cloud_target(),
        Err("failed to initialize cloud profile mid".to_owned())
    );
    let marked: Vec<bool> = registry.overview_profiles().iter().map(|p| p.selected).collect();
    assert_eq!(marked, vec![false, true, false]);
    assert!(registry.has_available());
}

#[test]
fn empty_registry_offers_nothing() {
    let registry = CloudProfileRegistry::new(vec![], Some("any"));
    assert_eq!(registry.selected, None);
    assert_eq!(registry.cloud_target(), Err("no cloud profile is available".to_owned()));
    assert!(!can_accept_turns(NanoAvailability::Downloading, &registry));
    assert!(can_accept_turns(NanoAvailability::Available, &registry));
    assert!(registry.current().is_none());
}
