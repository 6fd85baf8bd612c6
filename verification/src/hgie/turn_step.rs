//! A turn's execution as a step function: the state it has reached and what
//! the last outside step reported go in; the next state and the next outside
//! step to take come out. The host performs each action and reports back.
use vstd::prelude::*;

use crate::hgie::flow::{
    cloud_assistant_reply, cloud_fallback, fallback_visible_text, spec_cloud_assistant_reply,
    spec_fallback_visible_text, CloudProblem, PrimaryRunner, TurnFlowError,
};
use crate::hgie::TurnPlanKind;
use crate::prompt_translator::{compose_visible_text, spec_compose_visible_reply};
use crate::text::{is_blank_str, trim};

verus! {

/// Where a turn's execution stands.
#[derive(Debug, Clone, Copy, PartialEq, Eq, Structural)]
pub enum TurnPhase {
    /// Nothing run yet.
    Start,
    /// The acknowledgement beat is running.
    Acking,
    /// The primary beat is running.
    Running,
    /// The turn ended with a visible reply.
    Finished,
    /// The turn failed without completing.
    Aborted,
}

/// A turn's execution state: its phase, whether its acknowledgement beat is
/// optional, the runner of its primary beat (or why there is none), the
/// acknowledgement shown, and whether the assistant's message has started.
#[derive(Debug)]
pub struct TurnFlowState {
    pub phase: TurnPhase,
    pub ack_optional: bool,
    pub primary: Result<PrimaryRunner, TurnFlowError>,
    pub first_beat_text: String,
    pub assistant_started: bool,
}

pub struct TurnFlowView {
    pub phase: TurnPhase,
    pub ack_optional: bool,
    pub primary: Result<PrimaryRunner, TurnFlowError>,
    pub first_beat_text: Seq<char>,
    pub assistant_started: bool,
}

impl View for TurnFlowState {
    type V = TurnFlowView;

    open spec fn view(&self) -> TurnFlowView {
        TurnFlowView {
            phase: self.phase,
            ack_optional: self.ack_optional,
            primary: self.primary,
            first_beat_text: self.first_beat_text@,
            assistant_started: self.assistant_started,
        }
    }
}

pub open spec fn result_view(r: Result<String, String>) -> Result<Seq<char>, Seq<char>> {
    match r {
        Ok(t) => Ok(t@),
        Err(e) => Err(e@),
    }
}

pub open spec fn option_view(o: Option<String>) -> Option<Seq<char>> {
    match o {
        Some(t) => Some(t@),
        None => None,
    }
}

/// What the host reports: the plan was made (whether it has an acknowledgement
/// beat, and whether that is optional; the primary beat's runner), or the
/// acknowledgement or primary beat returned (its text, or its error's text).
#[derive(Debug)]
pub enum TurnEvent {
    Planned { ack: Option<bool>, primary: Result<PrimaryRunner, TurnFlowError> },
    AckReturned(Result<String, String>),
    PrimaryReturned(Result<String, String>),
}

pub enum TurnEventView {
    Planned { ack: Option<bool>, primary: Result<PrimaryRunner, TurnFlowError> },
    AckReturned(Result<Seq<char>, Seq<char>>),
    PrimaryReturned(Result<Seq<char>, Seq<char>>),
}

impl View for TurnEvent {
    type V = TurnEventView;

    open spec fn view(&self) -> TurnEventView {
        match self {
            TurnEvent::Planned { ack, primary } => TurnEventView::Planned { ack: *ack, primary: *primary },
            TurnEvent::AckReturned(r) => TurnEventView::AckReturned(result_view(*r)),
            TurnEvent::PrimaryReturned(r) => TurnEventView::PrimaryReturned(result_view(*r)),
        }
    }
}

/// What the host does next. `show` is text to start the assistant's message
/// with before anything else (`assistant_started` is emitted with it).
#[derive(Debug, Clone)]
pub enum TurnAction {
    /// Run the acknowledgement beat.
    RunAck,
    /// Run the primary beat with its runner.
    RunPrimary { show: Option<String>, runner: PrimaryRunner },
    /// Persist `reply` as the assistant's message and refresh working memory;
    /// write the grounded memories of the user's words where `write_grounded`;
    /// where `error` is given, record the turn as fallen back to a visible
    /// error with that text.
    Finish { show: Option<String>, reply: String, write_grounded: bool, error: Option<String> },
    /// The plan cannot run: the turn fails with this error.
    AbortFlow { show: Option<String>, error: TurnFlowError },
    /// The required acknowledgement failed: the turn fails with its error.
    AckFailed(String),
    /// The report does not fit the phase: nothing to do.
    Ignore,
}

pub enum TurnActionView {
    RunAck,
    RunPrimary { show: Option<Seq<char>>, runner: PrimaryRunner },
    Finish { show: Option<Seq<char>>, reply: Seq<char>, write_grounded: bool, error: Option<Seq<char>> },
    AbortFlow { show: Option<Seq<char>>, error: TurnFlowError },
    AckFailed(Seq<char>),
    Ignore,
}

impl View for TurnAction {
    type V = TurnActionView;

    open spec fn view(&self) -> TurnActionView {
        match self {
            TurnAction::RunAck => TurnActionView::RunAck,
            TurnAction::RunPrimary { show, runner } => TurnActionView::RunPrimary {
                show: option_view(*show),
                runner: *runner,
            },
            TurnAction::Finish { show, reply, write_grounded, error } => TurnActionView::Finish {
                show: option_view(*show),
                reply: reply@,
                write_grounded: *write_grounded,
                error: option_view(*error),
            },
            TurnAction::AbortFlow { show, error } => TurnActionView::AbortFlow {
                show: option_view(*show),
                error: *error,
            },
            TurnAction::AckFailed(e) => TurnActionView::AckFailed(e@),
            TurnAction::Ignore => TurnActionView::Ignore,
        }
    }
}

/// The state before anything has run.
pub open spec fn spec_initial_turn_state() -> TurnFlowView {
    TurnFlowView {
        phase: TurnPhase::Start,
        ack_optional: false,
        primary: Err(TurnFlowError::MissingPrimaryBeat),
        first_beat_text: Seq::empty(),
        assistant_started: false,
    }
}

pub fn initial_turn_state() -> (r: TurnFlowState)
    ensures
        r@ == spec_initial_turn_state(),
{
    TurnFlowState {
        phase: TurnPhase::Start,
        ack_optional: false,
        primary: Err(TurnFlowError::MissingPrimaryBeat),
        first_beat_text: String::new(),
        assistant_started: false,
    }
}

/// After the acknowledgement (or where there is none): `first_beat` is what
/// it showed, `show` the text that starts the assistant's message now. The
/// primary beat runs; a plan without a primary beat fails; a primary beat that
/// cannot run ends the turn with the fallback text and the error.
pub open spec fn spec_after_ack(s: TurnFlowView, first_beat: Seq<char>, show: Option<Seq<char>>) -> (
    TurnFlowView,
    TurnActionView,
) {
    let base = TurnFlowView { first_beat_text: first_beat, assistant_started: show is Some, ..s };
    match s.primary {
        Ok(runner) => (TurnFlowView { phase: TurnPhase::Running, ..base }, TurnActionView::RunPrimary { show, runner }),
        Err(TurnFlowError::MissingPrimaryBeat) => (
            TurnFlowView { phase: TurnPhase::Aborted, ..base },
            TurnActionView::AbortFlow { show, error: TurnFlowError::MissingPrimaryBeat },
        ),
        Err(e) => {
            let text = spec_fallback_visible_text(first_beat);
            (
                TurnFlowView { phase: TurnPhase::Finished, assistant_started: true, ..base },
                TurnActionView::Finish {
                    show: Some(text),
                    reply: text,
                    write_grounded: false,
                    error: Some(e.spec_message()),
                },
            )
        },
    }
}

/// One step of a turn's execution. With the plan made, the acknowledgement
/// runs where there is one. A shown acknowledgement starts the assistant's
/// message; an empty one, or a failed optional one, is passed over; a failed
/// required one fails the turn. The primary beat's reply then ends the turn,
/// starting the message where nothing started it, and the user's grounded
/// memories are written; where the primary beat failed, the acknowledgement
/// (else a fixed notice) ends the turn instead, with the error recorded.
pub open spec fn spec_turn_step(s: TurnFlowView, e: TurnEventView) -> (TurnFlowView, TurnActionView) {
    match e {
        TurnEventView::Planned { ack, primary } => if s.phase == TurnPhase::Start {
            match ack {
                Some(optional) => (
                    TurnFlowView { phase: TurnPhase::Acking, ack_optional: optional, primary, ..s },
                    TurnActionView::RunAck,
                ),
                None => spec_after_ack(TurnFlowView { primary, ..s }, Seq::empty(), None),
            }
        } else {
            (s, TurnActionView::Ignore)
        },
        TurnEventView::AckReturned(out) => if s.phase == TurnPhase::Acking {
            match out {
                Ok(text) => if trim(text).len() > 0 {
                    spec_after_ack(s, text, Some(text))
                } else {
                    spec_after_ack(s, Seq::empty(), None)
                },
                Err(err) => if s.ack_optional {
                    spec_after_ack(s, Seq::empty(), None)
                } else {
                    (TurnFlowView { phase: TurnPhase::Aborted, ..s }, TurnActionView::AckFailed(err))
                },
            }
        } else {
            (s, TurnActionView::Ignore)
        },
        TurnEventView::PrimaryReturned(out) => if s.phase == TurnPhase::Running {
            let started = TurnFlowView { phase: TurnPhase::Finished, assistant_started: true, ..s };
            match out {
                Ok(text) => (
                    started,
                    TurnActionView::Finish {
                        show: if s.assistant_started {
                            None
                        } else {
                            Some(text)
                        },
                        reply: text,
                        write_grounded: true,
                        error: None,
                    },
                ),
                Err(err) => {
                    let text = spec_fallback_visible_text(s.first_beat_text);
                    (
                        started,
                        TurnActionView::Finish {
                            show: if s.assistant_started {
                                None
                            } else {
                                Some(text)
                            },
                            reply: text,
                            write_grounded: false,
                            error: Some(err),
                        },
                    )
                },
            }
        } else {
            (s, TurnActionView::Ignore)
        },
    }
}

fn copy_flow_error(e: &TurnFlowError) -> (r: TurnFlowError)
    ensures
        r == *e,
{
    match e {
        TurnFlowError::MissingPrimaryBeat => TurnFlowError::MissingPrimaryBeat,
        TurnFlowError::FastAckAsPrimary => TurnFlowError::FastAckAsPrimary,
        TurnFlowError::AckForNonFastAck => TurnFlowError::AckForNonFastAck,
        TurnFlowError::ToolDirectWithoutExactRequest => TurnFlowError::ToolDirectWithoutExactRequest,
        TurnFlowError::FallbackWithoutLocalReply => TurnFlowError::FallbackWithoutLocalReply,
        TurnFlowError::CloudFailed(t) => TurnFlowError::CloudFailed(t.clone()),
        TurnFlowError::CloudOutputSuppressed => TurnFlowError::CloudOutputSuppressed,
    }
}

fn copy_primary(p: &Result<PrimaryRunner, TurnFlowError>) -> (r: Result<PrimaryRunner, TurnFlowError>)
    ensures
        r == *p,
{
    match p {
        Ok(runner) => Ok(*runner),
        Err(e) => Err(copy_flow_error(e)),
    }
}

/// The same state, copied.
pub fn copy_turn_state(s: &TurnFlowState) -> (r: TurnFlowState)
    ensures
        r@ == s@,
{
    TurnFlowState {
        phase: s.phase,
        ack_optional: s.ack_optional,
        primary: copy_primary(&s.primary),
        first_beat_text: s.first_beat_text.clone(),
        assistant_started: s.assistant_started,
    }
}

fn after_ack(s: &TurnFlowState, first_beat: String, show: Option<String>) -> (r: (TurnFlowState, TurnAction))
    ensures
        (r.0@, r.1@) == spec_after_ack(s@, first_beat@, option_view(show)),
{
    let started = show.is_some();
    match &s.primary {
        Ok(runner) => (
            TurnFlowState {
                phase: TurnPhase::Running,
                ack_optional: s.ack_optional,
                primary: copy_primary(&s.primary),
                first_beat_text: first_beat,
                assistant_started: started,
            },
            TurnAction::RunPrimary { show, runner: *runner },
        ),
        Err(TurnFlowError::MissingPrimaryBeat) => (
            TurnFlowState {
                phase: TurnPhase::Aborted,
                ack_optional: s.ack_optional,
                primary: Err(TurnFlowError::MissingPrimaryBeat),
                first_beat_text: first_beat,
                assistant_started: started,
            },
            TurnAction::AbortFlow { show, error: TurnFlowError::MissingPrimaryBeat },
        ),
        Err(e) => {
            let text = fallback_visible_text(first_beat.as_str());
            let message = e.message();
            (
                TurnFlowState {
                    phase: TurnPhase::Finished,
                    ack_optional: s.ack_optional,
                    primary: copy_primary(&s.primary),
                    first_beat_text: first_beat,
                    assistant_started: true,
                },
                TurnAction::Finish {
                    show: Some(text.clone()),
                    reply: text,
                    write_grounded: false,
                    error: Some(message),
                },
            )
        },
    }
}

/// One step of a turn's execution (see `spec_turn_step`).
pub fn turn_step(state: &TurnFlowState, event: TurnEvent) -> (r: (TurnFlowState, TurnAction))
    ensures
        (r.0@, r.1@) == spec_turn_step(state@, event@),
{
    match event {
        TurnEvent::Planned { ack, primary } => {
            if state.phase != TurnPhase::Start {
                return (copy_turn_state(state), TurnAction::Ignore);
            }
            match ack {
                Some(optional) => (
                    TurnFlowState {
                        phase: TurnPhase::Acking,
                        ack_optional: optional,
                        primary,
                        first_beat_text: state.first_beat_text.clone(),
                        assistant_started: state.assistant_started,
                    },
                    TurnAction::RunAck,
                ),
                None => {
                    let planned = TurnFlowState {
                        phase: state.phase,
                        ack_optional: state.ack_optional,
                        primary,
                        first_beat_text: state.first_beat_text.clone(),
                        assistant_started: state.assistant_started,
                    };
                    after_ack(&planned, String::new(), None)
                },
            }
        },
        TurnEvent::AckReturned(out) => {
            if state.phase != TurnPhase::Acking {
                return (copy_turn_state(state), TurnAction::Ignore);
            }
            match out {
                Ok(text) => if !is_blank_str(text.as_str()) {
                    let shown = text.clone();
                    after_ack(state, text, Some(shown))
                } else {
                    after_ack(state, String::new(), None)
                },
                Err(err) => if state.ack_optional {
                    after_ack(state, String::new(), None)
                } else {
                    (
                        TurnFlowState {
                            phase: TurnPhase::Aborted,
                            ack_optional: state.ack_optional,
                            primary: copy_primary(&state.primary),
                            first_beat_text: state.first_beat_text.clone(),
                            assistant_started: state.assistant_started,
                        },
                        TurnAction::AckFailed(err),
                    )
                },
            }
        },
        TurnEvent::PrimaryReturned(out) => {
            if state.phase != TurnPhase::Running {
                return (copy_turn_state(state), TurnAction::Ignore);
            }
            let next = TurnFlowState {
                phase: TurnPhase::Finished,
                ack_optional: state.ack_optional,
                primary: copy_primary(&state.primary),
                first_beat_text: state.first_beat_text.clone(),
                assistant_started: true,
            };
            match out {
                Ok(text) => {
                    let show = if state.assistant_started {
                        None
                    } else {
                        Some(text.clone())
                    };
                    (next, TurnAction::Finish { show, reply: text, write_grounded: true, error: None })
                },
                Err(err) => {
                    let text = fallback_visible_text(state.first_beat_text.as_str());
                    let show = if state.assistant_started {
                        None
                    } else {
                        Some(text.clone())
                    };
                    (next, TurnAction::Finish { show, reply: text, write_grounded: false, error: Some(err) })
                },
            }
        },
    }
}

// ---------------------------------------------------------------------------
// The cloud beat
// ---------------------------------------------------------------------------

/// Where a cloud beat stands.
#[derive(Debug, Clone, Copy, PartialEq, Eq, Structural)]
pub enum CloudPhase {
    Start,
    /// The cloud model is answering.
    AwaitingCloud,
    /// The tool the cloud model asked for is running.
    AwaitingTool,
    /// The local model answers instead.
    AwaitingFallback,
    Done,
}

/// A cloud beat's state: its phase, whether its plan runs the tool the model
/// asks for, whether a local model can answer, the acknowledgement shown, and
/// the model's reply while its tool runs.
#[derive(Debug)]
pub struct CloudFlowState {
    pub phase: CloudPhase,
    pub runs_tool: bool,
    pub local_reply: bool,
    pub first_beat_text: String,
    pub reply: String,
}

pub struct CloudFlowView {
    pub phase: CloudPhase,
    pub runs_tool: bool,
    pub local_reply: bool,
    pub first_beat_text: Seq<char>,
    pub reply: Seq<char>,
}

impl View for CloudFlowState {
    type V = CloudFlowView;

    open spec fn view(&self) -> CloudFlowView {
        CloudFlowView {
            phase: self.phase,
            runs_tool: self.runs_tool,
            local_reply: self.local_reply,
            first_beat_text: self.first_beat_text@,
            reply: self.reply@,
        }
    }
}

/// What the cloud model's output read as: whether it was an internal payload
/// (and suppressed), its reply, and whether it asked for a tool.
#[derive(Debug, Clone)]
pub struct CloudReply {
    pub suppressed: bool,
    pub reply: String,
    pub has_tool_request: bool,
}

pub struct CloudReplyView {
    pub suppressed: bool,
    pub reply: Seq<char>,
    pub has_tool_request: bool,
}

impl View for CloudReply {
    type V = CloudReplyView;

    open spec fn view(&self) -> CloudReplyView {
        CloudReplyView { suppressed: self.suppressed, reply: self.reply@, has_tool_request: self.has_tool_request }
    }
}

/// What the host reports of a cloud beat: it begins (the plan's kind, whether
/// a local model can answer, the acknowledgement shown), or the cloud model,
/// the tool or the local fallback returned (or failed with an error's text).
#[derive(Debug)]
pub enum CloudEvent {
    Begin { plan_kind: TurnPlanKind, local_reply: bool, first_beat_text: String },
    CloudReturned(Result<CloudReply, String>),
    ToolReturned(Result<String, String>),
    FallbackReturned(Result<String, String>),
}

pub enum CloudEventView {
    Begin { plan_kind: TurnPlanKind, local_reply: bool, first_beat_text: Seq<char> },
    CloudReturned(Result<CloudReplyView, Seq<char>>),
    ToolReturned(Result<Seq<char>, Seq<char>>),
    FallbackReturned(Result<Seq<char>, Seq<char>>),
}

impl View for CloudEvent {
    type V = CloudEventView;

    open spec fn view(&self) -> CloudEventView {
        match self {
            CloudEvent::Begin { plan_kind, local_reply, first_beat_text } => CloudEventView::Begin {
                plan_kind: *plan_kind,
                local_reply: *local_reply,
                first_beat_text: first_beat_text@,
            },
            CloudEvent::CloudReturned(r) => CloudEventView::CloudReturned(
                match r {
                    Ok(c) => Ok(c@),
                    Err(e) => Err(e@),
                },
            ),
            CloudEvent::ToolReturned(r) => CloudEventView::ToolReturned(result_view(*r)),
            CloudEvent::FallbackReturned(r) => CloudEventView::FallbackReturned(result_view(*r)),
        }
    }
}

/// What the host does next for a cloud beat.
#[derive(Debug, Clone)]
pub enum CloudAction {
    /// Call the cloud model.
    CallCloud,
    /// Record the fallback with this reason and let the local model answer.
    RunFallback { reason: String },
    /// Run the tool the cloud model asked for.
    RunTool,
    /// The beat's visible reply, and whether a tool ran for it.
    Reply { text: String, tool_ran: bool },
    /// The beat fails with this error.
    Fail(String),
    /// The report does not fit the phase: nothing to do.
    Ignore,
}

pub enum CloudActionView {
    CallCloud,
    RunFallback { reason: Seq<char> },
    RunTool,
    Reply { text: Seq<char>, tool_ran: bool },
    Fail(Seq<char>),
    Ignore,
}

impl View for CloudAction {
    type V = CloudActionView;

    open spec fn view(&self) -> CloudActionView {
        match self {
            CloudAction::CallCloud => CloudActionView::CallCloud,
            CloudAction::RunFallback { reason } => CloudActionView::RunFallback { reason: reason@ },
            CloudAction::RunTool => CloudActionView::RunTool,
            CloudAction::Reply { text, tool_ran } => CloudActionView::Reply { text: text@, tool_ran: *tool_ran },
            CloudAction::Fail(e) => CloudActionView::Fail(e@),
            CloudAction::Ignore => CloudActionView::Ignore,
        }
    }
}

pub open spec fn spec_initial_cloud_state() -> CloudFlowView {
    CloudFlowView {
        phase: CloudPhase::Start,
        runs_tool: false,
        local_reply: false,
        first_beat_text: Seq::empty(),
        reply: Seq::empty(),
    }
}

pub fn initial_cloud_state() -> (r: CloudFlowState)
    ensures
        r@ == spec_initial_cloud_state(),
{
    CloudFlowState {
        phase: CloudPhase::Start,
        runs_tool: false,
        local_reply: false,
        first_beat_text: String::new(),
        reply: String::new(),
    }
}

/// A cloud problem (the call's error text, or `None` where the output was
/// suppressed): the local model answers where it can, with the fallback's
/// reason, else the beat fails with the problem's error.
pub open spec fn spec_cloud_problem_step(s: CloudFlowView, runtime_error: Option<Seq<char>>) -> (
    CloudFlowView,
    CloudActionView,
) {
    if s.local_reply {
        (
            CloudFlowView { phase: CloudPhase::AwaitingFallback, ..s },
            CloudActionView::RunFallback {
                reason: match runtime_error {
                    Some(_) => "cloud_runtime_error"@,
                    None => "cloud_output_suppressed"@,
                },
            },
        )
    } else {
        (
            CloudFlowView { phase: CloudPhase::Done, ..s },
            CloudActionView::Fail(
                match runtime_error {
                    Some(err) => "cloud reasoning failed: "@ + err,
                    None => "cloud reasoning returned suppressed internal payload"@,
                },
            ),
        )
    }
}

/// One step of a cloud beat. The cloud model is called; where it fails or its
/// output is suppressed, the local model answers if it can, else the beat
/// fails. In a cloud-tool plan the tool the model asked for runs, and the
/// reply then falls back to the tool's summary where the model and the
/// acknowledgement said nothing; the visible reply joins the acknowledgement
/// and the reply. A failed tool fails the beat; the local fallback's outcome is
/// the beat's.
pub open spec fn spec_cloud_step(s: CloudFlowView, e: CloudEventView) -> (CloudFlowView, CloudActionView) {
    let done = CloudFlowView { phase: CloudPhase::Done, ..s };
    match e {
        CloudEventView::Begin { plan_kind, local_reply, first_beat_text } => if s.phase == CloudPhase::Start {
            (
                CloudFlowView {
                    phase: CloudPhase::AwaitingCloud,
                    runs_tool: plan_kind == TurnPlanKind::CloudTool,
                    local_reply,
                    first_beat_text,
                    ..s
                },
                CloudActionView::CallCloud,
            )
        } else {
            (s, CloudActionView::Ignore)
        },
        CloudEventView::CloudReturned(out) => if s.phase == CloudPhase::AwaitingCloud {
            match out {
                Err(err) => spec_cloud_problem_step(s, Some(err)),
                Ok(c) => if c.suppressed {
                    spec_cloud_problem_step(s, None)
                } else if s.runs_tool && c.has_tool_request {
                    (CloudFlowView { phase: CloudPhase::AwaitingTool, reply: c.reply, ..s }, CloudActionView::RunTool)
                } else {
                    (
                        done,
                        CloudActionView::Reply {
                            text: spec_compose_visible_reply(
                                s.first_beat_text,
                                spec_cloud_assistant_reply(c.reply, None, s.first_beat_text),
                                None,
                            ),
                            tool_ran: false,
                        },
                    )
                },
            }
        } else {
            (s, CloudActionView::Ignore)
        },
        CloudEventView::ToolReturned(out) => if s.phase == CloudPhase::AwaitingTool {
            match out {
                Ok(summary) => (
                    done,
                    CloudActionView::Reply {
                        text: spec_compose_visible_reply(
                            s.first_beat_text,
                            spec_cloud_assistant_reply(s.reply, Some(summary), s.first_beat_text),
                            None,
                        ),
                        tool_ran: true,
                    },
                ),
                Err(err) => (done, CloudActionView::Fail(err)),
            }
        } else {
            (s, CloudActionView::Ignore)
        },
        CloudEventView::FallbackReturned(out) => if s.phase == CloudPhase::AwaitingFallback {
            match out {
                Ok(text) => (done, CloudActionView::Reply { text, tool_ran: false }),
                Err(err) => (done, CloudActionView::Fail(err)),
            }
        } else {
            (s, CloudActionView::Ignore)
        },
    }
}

fn cloud_problem_step(s: &CloudFlowState, runtime_error: Option<String>) -> (r: (CloudFlowState, CloudAction))
    ensures
        (r.0@, r.1@) == spec_cloud_problem_step(s@, option_view(runtime_error)),
{
    let problem = match runtime_error {
        Some(err) => CloudProblem::RuntimeError(err),
        None => CloudProblem::OutputSuppressed,
    };
    let decided = cloud_fallback(problem, s.local_reply);
    proof {
        reveal_strlit("cloud reasoning failed: ");
    }
    match decided {
        Ok(reason) => (cloud_state_at(s, CloudPhase::AwaitingFallback), CloudAction::RunFallback { reason }),
        Err(e) => (cloud_state_at(s, CloudPhase::Done), CloudAction::Fail(e.message())),
    }
}

fn cloud_state_at(s: &CloudFlowState, phase: CloudPhase) -> (n: CloudFlowState)
    ensures
        n@ == (CloudFlowView { phase, ..s@ }),
{
    CloudFlowState {
        phase,
        runs_tool: s.runs_tool,
        local_reply: s.local_reply,
        first_beat_text: s.first_beat_text.clone(),
        reply: s.reply.clone(),
    }
}

/// One step of a cloud beat (see `spec_cloud_step`).
pub fn cloud_step(state: &CloudFlowState, event: CloudEvent) -> (r: (CloudFlowState, CloudAction))
    ensures
        (r.0@, r.1@) == spec_cloud_step(state@, event@),
{
    match event {
        CloudEvent::Begin { plan_kind, local_reply, first_beat_text } => {
            if state.phase != CloudPhase::Start {
                return (cloud_state_at(state, state.phase), CloudAction::Ignore);
            }
            (
                CloudFlowState {
                    phase: CloudPhase::AwaitingCloud,
                    runs_tool: plan_kind == TurnPlanKind::CloudTool,
                    local_reply,
                    first_beat_text,
                    reply: state.reply.clone(),
                },
                CloudAction::CallCloud,
            )
        },
        CloudEvent::CloudReturned(out) => {
            if state.phase != CloudPhase::AwaitingCloud {
                return (cloud_state_at(state, state.phase), CloudAction::Ignore);
            }
            match out {
                Err(err) => cloud_problem_step(state, Some(err)),
                Ok(c) => if c.suppressed {
                    cloud_problem_step(state, None)
                } else if state.runs_tool && c.has_tool_request {
                    (
                        CloudFlowState {
                            phase: CloudPhase::AwaitingTool,
                            runs_tool: state.runs_tool,
                            local_reply: state.local_reply,
                            first_beat_text: state.first_beat_text.clone(),
                            reply: c.reply,
                        },
                        CloudAction::RunTool,
                    )
                } else {
                    let reply = cloud_assistant_reply(c.reply.as_str(), None, state.first_beat_text.as_str());
                    let text = compose_visible_text(state.first_beat_text.as_str(), reply.as_str(), None);
                    (cloud_state_at(state, CloudPhase::Done), CloudAction::Reply { text, tool_ran: false })
                },
            }
        },
        CloudEvent::ToolReturned(out) => {
            if state.phase != CloudPhase::AwaitingTool {
                return (cloud_state_at(state, state.phase), CloudAction::Ignore);
            }
            match out {
                Ok(summary) => {
                    let reply = cloud_assistant_reply(
                        state.reply.as_str(),
                        Some(summary.as_str()),
                        state.first_beat_text.as_str(),
                    );
                    let text = compose_visible_text(state.first_beat_text.as_str(), reply.as_str(), None);
                    (cloud_state_at(state, CloudPhase::Done), CloudAction::Reply { text, tool_ran: true })
                },
                Err(err) => (cloud_state_at(state, CloudPhase::Done), CloudAction::Fail(err)),
            }
        },
        CloudEvent::FallbackReturned(out) => {
            if state.phase != CloudPhase::AwaitingFallback {
                return (cloud_state_at(state, state.phase), CloudAction::Ignore);
            }
            match out {
                Ok(text) => (cloud_state_at(state, CloudPhase::Done), CloudAction::Reply { text, tool_ran: false }),
                Err(err) => (cloud_state_at(state, CloudPhase::Done), CloudAction::Fail(err)),
            }
        },
    }
}

// ---------------------------------------------------------------------------
// What every run of the step function keeps
// ---------------------------------------------------------------------------

/// Whether an action starts the assistant's message.
pub open spec fn starts_message(a: TurnActionView) -> bool {
    match a {
        TurnActionView::RunPrimary { show, .. } => show is Some,
        TurnActionView::Finish { show, .. } => show is Some,
        TurnActionView::AbortFlow { show, .. } => show is Some,
        _ => false,
    }
}

/// Nothing has started the assistant's message before the acknowledgement
/// returned, and a finished turn has started it.
pub open spec fn turn_state_ok(s: TurnFlowView) -> bool {
    &&& (s.phase == TurnPhase::Start || s.phase == TurnPhase::Acking) ==> !s.assistant_started
    &&& s.phase == TurnPhase::Finished ==> s.assistant_started
}

/// The state after `events` from `s`, with how many actions on the way
/// started the assistant's message.
pub open spec fn run_turn(s: TurnFlowView, events: Seq<TurnEventView>) -> (TurnFlowView, nat)
    decreases events.len(),
{
    if events.len() == 0 {
        (s, 0)
    } else {
        let (p, n) = run_turn(s, events.drop_last());
        let (q, a) = spec_turn_step(p, events.last());
        (q, n + if starts_message(a) {
            1nat
        } else {
            0nat
        })
    }
}

pub open spec fn flag(b: bool) -> nat {
    if b {
        1
    } else {
        0
    }
}

proof fn lemma_step_keeps_state_ok(s: TurnFlowView, e: TurnEventView)
    requires
        turn_state_ok(s),
    ensures
        turn_state_ok(spec_turn_step(s, e).0),
        spec_turn_step(s, e).0.assistant_started == (s.assistant_started || starts_message(spec_turn_step(s, e).1)),
        starts_message(spec_turn_step(s, e).1) ==> !s.assistant_started,
{
}

proof fn lemma_run_counts_starts(s: TurnFlowView, events: Seq<TurnEventView>)
    requires
        turn_state_ok(s),
    ensures
        turn_state_ok(run_turn(s, events).0),
        flag(run_turn(s, events).0.assistant_started) == flag(s.assistant_started) + run_turn(s, events).1,
    decreases events.len(),
{
    if events.len() > 0 {
        lemma_run_counts_starts(s, events.drop_last());
        let (p, n) = run_turn(s, events.drop_last());
        lemma_step_keeps_state_ok(p, events.last());
    }
}

/// Whatever the host reports, a turn starts the assistant's message at most
/// once, and a turn that finished started it exactly once.
pub proof fn lemma_assistant_starts_once(events: Seq<TurnEventView>)
    ensures
        run_turn(spec_initial_turn_state(), events).1 <= 1,
        run_turn(spec_initial_turn_state(), events).0.phase == TurnPhase::Finished ==> run_turn(
            spec_initial_turn_state(),
            events,
        ).1 == 1,
{
    lemma_run_counts_starts(spec_initial_turn_state(), events);
}

/// A turn whose primary beat failed still ends with text the user sees: the
/// acknowledgement shown, else a fixed notice, never nothing.
pub proof fn lemma_failure_shows_text(s: TurnFlowView, e: TurnEventView)
    ensures
        spec_turn_step(s, e).1 matches TurnActionView::Finish { reply, error: Some(_), .. } ==> {
            &&& reply == spec_fallback_visible_text(spec_turn_step(s, e).0.first_beat_text)
            &&& reply.len() > 0
        },
{
    reveal_strlit("Something needs attention before I can finish that.");
}

/// The grounded memories of the user's words are written only when the
/// primary beat succeeded, and never with a recorded error.
pub proof fn lemma_grounded_only_on_success(s: TurnFlowView, e: TurnEventView)
    ensures
        spec_turn_step(s, e).1 matches TurnActionView::Finish { write_grounded: true, error, .. } ==> {
            &&& error is None
            &&& s.phase == TurnPhase::Running
            &&& e matches TurnEventView::PrimaryReturned(Ok(_))
        },
{
}

/// A cloud beat runs the model's tool only in a cloud-tool plan and only when
/// the model asked for one in output that was not suppressed; it falls back to
/// the local model only where one can answer; and suppressed output never
/// reaches the user.
pub proof fn lemma_cloud_step_guards(s: CloudFlowView, e: CloudEventView)
    ensures
        spec_cloud_step(s, e).1 is RunTool ==> {
            &&& s.runs_tool
            &&& e matches CloudEventView::CloudReturned(Ok(c)) && c.has_tool_request && !c.suppressed
        },
        spec_cloud_step(s, e).1 is RunFallback ==> s.local_reply,
        (e matches CloudEventView::CloudReturned(Ok(c)) && c.suppressed) ==> !(spec_cloud_step(s, e).1 is Reply),
        (e matches CloudEventView::Begin { plan_kind, .. } && s.phase == CloudPhase::Start) ==> spec_cloud_step(
            s,
            e,
        ).0.runs_tool == (e->plan_kind == TurnPlanKind::CloudTool),
{
}

} // verus!
