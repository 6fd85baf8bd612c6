use rust_core::hgie::flow::{PrimaryRunner, TurnFlowError};
use rust_core::hgie::turn_step::{
    cloud_step, initial_cloud_state, initial_turn_state, turn_step, CloudAction, CloudEvent,
    CloudPhase, CloudReply, TurnAction, TurnEvent, TurnPhase,
};
use rust_core::hgie::TurnPlanKind;
use rust_core::prompt_translator::compose_visible_text;

const NOTICE: &str = "Something needs attention before I can finish that.";

#[test]
fn acknowledged_turn_starts_once_and_writes_memories_on_success() {
    let s = initial_turn_state();
    let (s, a) = turn_step(&s, TurnEvent::Planned { ack: Some(true), primary: Ok(PrimaryRunner::Nano) });
    assert!(matches!(a, TurnAction::RunAck));
    assert_eq!(s.phase, TurnPhase::Acking);
    let (s, a) = turn_step(&s, TurnEvent::AckReturned(Ok("On it.".to_owned())));
    match a {
        TurnAction::RunPrimary { show, runner } => {
            assert_eq!(show.as_deref(), Some("On it."));
            assert_eq!(runner, PrimaryRunner::Nano);
        }
        other => panic!("unexpected {other:?}"),
    }
    assert!(s.assistant_started);
    let (s, a) = turn_step(&s, TurnEvent::PrimaryReturned(Ok("Answer.".to_owned())));
    match a {
        TurnAction::Finish { show, reply, write_grounded, error } => {
            assert_eq!(show, None);
            assert_eq!(reply, "Answer.");
            assert!(write_grounded);
            assert_eq!(error, None);
        }
        other => panic!("unexpected {other:?}"),
    }
    assert_eq!(s.phase, TurnPhase::Finished);
    let (_, a) = turn_step(&s, TurnEvent::PrimaryReturned(Ok("again".to_owned())));
    assert!(matches!(a, TurnAction::Ignore));
}

#[test]
fn failed_primary_beat_shows_fallback_text_without_grounded_memories() {
    let s = initial_turn_state();
    let (s, a) = turn_step(&s, TurnEvent::Planned { ack: None, primary: Ok(PrimaryRunner::Cloud) });
    assert!(matches!(a, TurnAction::RunPrimary { show: None, runner: PrimaryRunner::Cloud }));
    let (_, a) = turn_step(&s, TurnEvent::PrimaryReturned(Err("boom".to_owned())));
    match a {
        TurnAction::Finish { show, reply, write_grounded, error } => {
            assert_eq!(show.as_deref(), Some(NOTICE));
            assert_eq!(reply, NOTICE);
            assert!(!write_grounded);
            assert_eq!(error.as_deref(), Some("boom"));
        }
        other => panic!("unexpected {other:?}"),
    }
    let s = initial_turn_state();
    let (s, _) = turn_step(&s, TurnEvent::Planned { ack: Some(true), primary: Ok(PrimaryRunner::Nano) });
    let (s, _) = turn_step(&s, TurnEvent::AckReturned(Ok("Sure.".to_owned())));
    let (_, a) = turn_step(&s, TurnEvent::PrimaryReturned(Err("down".to_owned())));
    match a {
        TurnAction::Finish { show, reply, .. } => {
            assert_eq!(show, None);
            assert_eq!(reply, "Sure.");
        }
        other => panic!("unexpected {other:?}"),
    }
}

#[test]
fn acknowledgement_failures_and_unrunnable_plans() {
    let s = initial_turn_state();
    let (s, _) = turn_step(&s, TurnEvent::Planned { ack: Some(false), primary: Ok(PrimaryRunner::Nano) });
    let (s, a) = turn_step(&s, TurnEvent::AckReturned(Err("nano down".to_owned())));
    assert!(matches!(a, TurnAction::AckFailed(ref e) if e == "nano down"));
    assert_eq!(s.phase, TurnPhase::Aborted);

    let s = initial_turn_state();
    let (s, _) = turn_step(&s, TurnEvent::Planned { ack: Some(true), primary: Ok(PrimaryRunner::Nano) });
    let (s, a) = turn_step(&s, TurnEvent::AckReturned(Err("nano down".to_owned())));
    assert!(matches!(a, TurnAction::RunPrimary { show: None, .. }));
    assert!(!s.assistant_started);

    let s = initial_turn_state();
    let (_, a) = turn_step(&s, TurnEvent::Planned { ack: None, primary: Err(TurnFlowError::MissingPrimaryBeat) });
    assert!(matches!(a, TurnAction::AbortFlow { show: None, error: TurnFlowError::MissingPrimaryBeat }));

    let s = initial_turn_state();
    let (s, _) = turn_step(&s, TurnEvent::Planned { ack: Some(true), primary: Err(TurnFlowError::FastAckAsPrimary) });
    let (s, a) = turn_step(&s, TurnEvent::AckReturned(Ok("Hi!".to_owned())));
    match a {
        TurnAction::Finish { show, reply, write_grounded, error } => {
            assert_eq!(show.as_deref(), Some("Hi!"));
            assert_eq!(reply, "Hi!");
            assert!(!write_grounded);
            assert_eq!(error.as_deref(), Some("fast ack beat cannot be the primary execution beat"));
        }
        other => panic!("unexpected {other:?}"),
    }
    assert_eq!(s.phase, TurnPhase::Finished);
}

#[test]
fn cloud_tool_plan_runs_the_tool_and_replies_with_its_summary() {
    let s = initial_cloud_state();
    let (s, a) = cloud_step(
        &s,
        CloudEvent::Begin { plan_kind: TurnPlanKind::CloudTool, local_reply: true, first_beat_text: String::new() },
    );
    assert!(matches!(a, CloudAction::CallCloud));
    let (s, a) = cloud_step(
        &s,
        CloudEvent::CloudReturned(Ok(CloudReply { suppressed: false, reply: String::new(), has_tool_request: true })),
    );
    assert!(matches!(a, CloudAction::RunTool));
    let (s, a) = cloud_step(&s, CloudEvent::ToolReturned(Ok("Playing jazz.".to_owned())));
    match a {
        CloudAction::Reply { text, tool_ran } => {
            assert_eq!(text, compose_visible_text("", "Playing jazz.", None));
            assert_eq!(text, "Playing jazz.");
            assert!(tool_ran);
        }
        other => panic!("unexpected {other:?}"),
    }
    assert_eq!(s.phase, CloudPhase::Done);
}

#[test]
fn cloud_problems_fall_back_or_fail() {
    let s = initial_cloud_state();
    let (s, _) = cloud_step(
        &s,
        CloudEvent::Begin { plan_kind: TurnPlanKind::CloudEscalated, local_reply: false, first_beat_text: String::new() },
    );
    let (_, a) = cloud_step(&s, CloudEvent::CloudReturned(Err("timeout".to_owned())));
    assert!(matches!(a, CloudAction::Fail(ref e) if e == "cloud reasoning failed: timeout"));

    let s = initial_cloud_state();
    let (s, _) = cloud_step(
        &s,
        CloudEvent::Begin { plan_kind: TurnPlanKind::CloudEscalated, local_reply: true, first_beat_text: "Sure.".to_owned() },
    );
    let (s, a) = cloud_step(
        &s,
        CloudEvent::CloudReturned(Ok(CloudReply { suppressed: true, reply: String::new(), has_tool_request: true })),
    );
    assert!(matches!(a, CloudAction::RunFallback { ref reason } if reason == "cloud_output_suppressed"));
    let (_, a) = cloud_step(&s, CloudEvent::FallbackReturned(Ok("Local answer.".to_owned())));
    assert!(matches!(a, CloudAction::Reply { ref text, tool_ran: false } if text == "Local answer."));

    let s = initial_cloud_state();
    let (s, _) = cloud_step(
        &s,
        CloudEvent::Begin { plan_kind: TurnPlanKind::CloudEscalated, local_reply: true, first_beat_text: "Sure.".to_owned() },
    );
    let (_, a) = cloud_step(
        &s,
        CloudEvent::CloudReturned(Ok(CloudReply {
            suppressed: false,
            reply: "Gravity pulls.".to_owned(),
            has_tool_request: true,
        })),
    );
    match a {
        CloudAction::Reply { text, tool_ran } => {
            assert_eq!(text, compose_visible_text("Sure.", "Gravity pulls.", None));
            assert!(!tool_ran);
        }
        other => panic!("unexpected {other:?}"),
    }
}
