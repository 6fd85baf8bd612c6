//! The Hue lights: their state, the actions on them, and how their state reads.
use vstd::prelude::*;

use crate::text::{append_decimal, append_str, chars_eq_str, chars_of, decimal, opt_seq, string_of};
use crate::tools::cards::{ToolExecutionResult, ToolResultFacts};
use crate::tools::{ToolError, ToolName};

verus! {

/// The lights' state: power, brightness (percent), colour and last scene.
#[derive(Debug, Clone)]
pub struct HueState {
    pub power: bool,
    pub brightness: u8,
    pub color: String,
    pub last_scene: Option<String>,
}

pub struct HueStateView {
    pub power: bool,
    pub brightness: u8,
    pub color: Seq<char>,
    pub last_scene: Option<Seq<char>>,
}

impl View for HueState {
    type V = HueStateView;

    open spec fn view(&self) -> HueStateView {
        HueStateView {
            power: self.power,
            brightness: self.brightness,
            color: self.color@,
            last_scene: opt_seq(self.last_scene),
        }
    }
}

/// What a Hue action reads of its arguments: the power state, the brightness
/// level, the colour and the scene.
#[derive(Debug, Clone)]
pub struct HueArguments {
    pub on: Option<bool>,
    pub level: Option<u64>,
    pub color: Option<String>,
    pub scene: Option<String>,
}

/// Lights never set: off, at half brightness, warm white, no scene.
pub fn default_hue_state() -> (r: HueState)
    ensures
        r@ == (HueStateView { power: false, brightness: 50, color: "warm-white"@, last_scene: None }),
{
    HueState { power: false, brightness: 50, color: "warm-white".to_owned(), last_scene: None }
}

/// How the lights read: off, or on at a brightness in a colour.
pub open spec fn spec_hue_summary(power: bool, brightness: u64, color: Seq<char>) -> Seq<char> {
    if power {
        "Hue lights are on at "@ + decimal(brightness as nat) + "% in "@ + color + "."@
    } else {
        "Hue lights are off."@
    }
}

pub fn hue_summary(power: bool, brightness: u64, color: &str) -> (r: String)
    ensures
        r@ == spec_hue_summary(power, brightness, color@),
{
    if power {
        let mut v = chars_of("Hue lights are on at ");
        append_decimal(&mut v, brightness);
        append_str(&mut v, "% in ");
        append_str(&mut v, color);
        append_str(&mut v, ".");
        string_of(&v)
    } else {
        "Hue lights are off.".to_owned()
    }
}

/// The facts of a successful Hue action: its message, and the level, colour
/// or scene it reports.
pub open spec fn hue_facts_ok(
    f: ToolResultFacts,
    message: Seq<char>,
    level: Option<u64>,
    color: Option<Seq<char>>,
    scene: Option<Seq<char>>,
) -> bool {
    &&& opt_seq(f.status) == Some("success"@)
    &&& opt_seq(f.message) == Some(message)
    &&& f.account_display_name is None
    &&& f.target_device_name is None
    &&& f.device_name is None
    &&& f.track_name is None
    &&& f.track_artists is None
    &&& f.level == level
    &&& opt_seq(f.color) == color
    &&& opt_seq(f.scene) == scene
}

fn success_facts(message: String, level: Option<u64>, color: Option<String>, scene: Option<String>) -> (r:
    ToolResultFacts)
    ensures
        hue_facts_ok(r, message@, level, opt_seq(color), opt_seq(scene)),
{
    ToolResultFacts {
        status: Some("success".to_owned()),
        message: Some(message),
        account_display_name: None,
        target_device_name: None,
        device_name: None,
        track_name: None,
        track_artists: None,
        level,
        color,
        scene,
        authorize_url: None,
    }
}

/// Why a Hue action was refused.
pub enum HueRefusal {
    PowerRequired,
    LevelRequired,
    ColorRequired,
    SceneRequired,
    UnsupportedAction,
}

/// The error that reports a refusal of `action`.
pub open spec fn refusal_error(e: ToolError, refusal: HueRefusal, action: Seq<char>) -> bool {
    match refusal {
        HueRefusal::PowerRequired => e is HuePowerRequired,
        HueRefusal::LevelRequired => e is HueLevelRequired,
        HueRefusal::ColorRequired => e is HueColorRequired,
        HueRefusal::SceneRequired => e is HueSceneRequired,
        HueRefusal::UnsupportedAction => e matches ToolError::UnsupportedHueAction(a) && a@ == action,
    }
}

/// What a Hue action does: it sets the power (which needs `on`), the
/// brightness (which needs a level, capped at 100), the colour or the scene
/// (which need theirs), and reports it in a message; other actions are
/// refused. The result's summary is its message.
pub open spec fn spec_execute_hue(state: HueStateView, action: Seq<char>, args: HueArguments) -> Result<
    (HueStateView, Seq<char>, Option<u64>, Option<Seq<char>>, Option<Seq<char>>),
    HueRefusal,
> {
    if action == "set_power"@ {
        match args.on {
            Some(on) => Ok(
                (
                    HueStateView { power: on, ..state },
                    if on {
                        "Hue lights turned on."@
                    } else {
                        "Hue lights turned off."@
                    },
                    None,
                    None,
                    None,
                ),
            ),
            None => Err(HueRefusal::PowerRequired),
        }
    } else if action == "set_brightness"@ {
        match args.level {
            Some(l) => {
                let level: u8 = if l < 100 {
                    l as u8
                } else {
                    100u8
                };
                Ok(
                    (
                        HueStateView { brightness: level, ..state },
                        "Hue brightness set to "@ + decimal(level as nat) + "."@,
                        Some(level as u64),
                        None,
                        None,
                    ),
                )
            },
            None => Err(HueRefusal::LevelRequired),
        }
    } else if action == "set_color"@ {
        match args.color {
            Some(c) => Ok(
                (
                    HueStateView { color: c@, ..state },
                    "Hue color changed to "@ + c@ + "."@,
                    None,
                    Some(c@),
                    None,
                ),
            ),
            None => Err(HueRefusal::ColorRequired),
        }
    } else if action == "activate_scene"@ {
        match args.scene {
            Some(sc) => Ok(
                (
                    HueStateView { last_scene: Some(sc@), ..state },
                    "Hue scene "@ + sc@ + " activated."@,
                    None,
                    None,
                    Some(sc@),
                ),
            ),
            None => Err(HueRefusal::SceneRequired),
        }
    } else {
        Err(HueRefusal::UnsupportedAction)
    }
}

/// A Hue action sets what it was asked to: `set_power` with `on` given leaves
/// the lights on exactly when `on` says so, whatever they were before;
/// `set_brightness` with a level leaves the brightness at that level, at most
/// 100; `set_color` leaves the colour given; `activate_scene` records the scene.
pub proof fn lemma_hue_action_sets_what_was_asked(state: HueStateView, action: Seq<char>, args: HueArguments)
    ensures
        (action == "set_power"@ && args.on is Some) ==> match spec_execute_hue(state, action, args) {
            Ok((next, _, _, _, _)) => next.power == args.on->0,
            Err(_) => false,
        },
        (action == "set_brightness"@ && args.level is Some) ==> match spec_execute_hue(state, action, args) {
            Ok((next, _, _, _, _)) => next.brightness == (if args.level->0 < 100 {
                args.level->0
            } else {
                100
            }),
            Err(_) => false,
        },
        (action == "set_color"@ && args.color is Some) ==> match spec_execute_hue(state, action, args) {
            Ok((next, _, _, _, _)) => next.color == args.color->0@,
            Err(_) => false,
        },
        (action == "activate_scene"@ && args.scene is Some) ==> match spec_execute_hue(state, action, args) {
            Ok((next, _, _, _, _)) => next.last_scene == Some(args.scene->0@),
            Err(_) => false,
        },
{
    reveal_strlit("set_power");
    reveal_strlit("set_brightness");
    reveal_strlit("set_color");
    reveal_strlit("activate_scene");
    assert("set_power"@ != "set_brightness"@) by {
        assert("set_power"@.len() != "set_brightness"@.len());
    }
    assert("set_power"@ != "set_color"@) by {
        assert("set_power"@[4] != "set_color"@[4]);
    }
    assert("set_power"@ != "activate_scene"@) by {
        assert("set_power"@.len() != "activate_scene"@.len());
    }
    assert("set_brightness"@ != "set_color"@) by {
        assert("set_brightness"@.len() != "set_color"@.len());
    }
    assert("set_brightness"@ != "activate_scene"@) by {
        assert("set_brightness"@[0] != "activate_scene"@[0]);
    }
    assert("set_color"@ != "activate_scene"@) by {
        assert("set_color"@[0] != "activate_scene"@[0]);
    }
}

/// An accepted Hue action changes only what it names: the power, the
/// brightness, the colour or the scene; the rest of the state stays.
pub proof fn lemma_hue_action_touches_only_its_aspect(state: HueStateView, action: Seq<char>, args: HueArguments)
    ensures
        spec_execute_hue(state, action, args) matches Ok((next, _, _, _, _)) ==> {
            &&& (next.power == state.power || action == "set_power"@)
            &&& (next.brightness == state.brightness || action == "set_brightness"@)
            &&& (next.color == state.color || action == "set_color"@)
            &&& (next.last_scene == state.last_scene || action == "activate_scene"@)
        },
{
}

/// The brightness never leaves 0..=100: the lights start within it and every
/// accepted action keeps them there.
pub proof fn lemma_brightness_stays_in_range(state: HueStateView, action: Seq<char>, args: HueArguments)
    requires
        state.brightness <= 100,
    ensures
        spec_execute_hue(state, action, args) matches Ok((next, _, _, _, _)) ==> next.brightness <= 100,
{
}

pub fn execute_hue(state: &HueState, action: &str, args: &HueArguments) -> (r: Result<
    (HueState, ToolExecutionResult),
    ToolError,
>)
    ensures
        match (r, spec_execute_hue(state@, action@, *args)) {
            (Ok((next, result)), Ok((expected, message, level, color, scene))) => {
                &&& next@ == expected
                &&& result.tool == ToolName::Hue
                &&& result.action@ == action@
                &&& result.summary@ == message
                &&& hue_facts_ok(result.result, message, level, color, scene)
            },
            (Err(e), Err(refusal)) => refusal_error(e, refusal, action@),
            _ => false,
        },
{
    let a = chars_of(action);
    let mut next = HueState {
        power: state.power,
        brightness: state.brightness,
        color: state.color.clone(),
        last_scene: match &state.last_scene {
            Some(s) => Some(s.clone()),
            None => None,
        },
    };
    let (message, level, color, scene) = if chars_eq_str(&a, "set_power") {
        let on = match args.on {
            Some(on) => on,
            None => return Err(ToolError::HuePowerRequired),
        };
        next.power = on;
        let m = if on {
            "Hue lights turned on.".to_owned()
        } else {
            "Hue lights turned off.".to_owned()
        };
        (m, None, None, None)
    } else if chars_eq_str(&a, "set_brightness") {
        let l = match args.level {
            Some(l) => l,
            None => return Err(ToolError::HueLevelRequired),
        };
        let level: u8 = if l < 100 {
            l as u8
        } else {
            100u8
        };
        next.brightness = level;
        let mut v = chars_of("Hue brightness set to ");
        append_decimal(&mut v, level as u64);
        append_str(&mut v, ".");
        (string_of(&v), Some(level as u64), None, None)
    } else if chars_eq_str(&a, "set_color") {
        let c = match &args.color {
            Some(c) => c,
            None => return Err(ToolError::HueColorRequired),
        };
        next.color = c.clone();
        let mut v = chars_of("Hue color changed to ");
        append_str(&mut v, c.as_str());
        append_str(&mut v, ".");
        (string_of(&v), None, Some(c.clone()), None)
    } else if chars_eq_str(&a, "activate_scene") {
        let sc = match &args.scene {
            Some(sc) => sc,
            None => return Err(ToolError::HueSceneRequired),
        };
        next.last_scene = Some(sc.clone());
        let mut v = chars_of("Hue scene ");
        append_str(&mut v, sc.as_str());
        append_str(&mut v, " activated.");
        (string_of(&v), None, None, Some(sc.clone()))
    } else {
        return Err(ToolError::UnsupportedHueAction(action.to_owned()));
    };
    let result = ToolExecutionResult {
        tool: ToolName::Hue,
        action: action.to_owned(),
        summary: message.clone(),
        result: success_facts(message, level, color, scene),
    };
    Ok((next, result))
}

/// How the lights read from their stored state (off, half brightness and warm
/// white where it says nothing): a `refresh_state` result whose summary and
/// message describe them and which reports their colour.
pub fn hue_status_result(power: Option<bool>, brightness: Option<u64>, color: Option<&str>) -> (r:
    ToolExecutionResult)
    ensures
        ({
            let p = match power {
                Some(v) => v,
                None => false,
            };
            let b = match brightness {
                Some(v) => v,
                None => 50u64,
            };
            let c = match color {
                Some(v) => v@,
                None => "warm-white"@,
            };
            &&& r.tool == ToolName::Hue
            &&& r.action@ == "refresh_state"@
            &&& r.summary@ == spec_hue_summary(p, b, c)
            &&& hue_facts_ok(r.result, spec_hue_summary(p, b, c), None, Some(c), None)
        }),
{
    let p = match power {
        Some(v) => v,
        None => false,
    };
    let b = match brightness {
        Some(v) => v,
        None => 50u64,
    };
    let c = match color {
        Some(v) => v.to_owned(),
        None => "warm-white".to_owned(),
    };
    let summary = hue_summary(p, b, c.as_str());
    ToolExecutionResult {
        tool: ToolName::Hue,
        action: "refresh_state".to_owned(),
        summary: summary.clone(),
        result: success_facts(summary, None, Some(c), None),
    }
}

} // verus!
