//! `device`: the device that the browser poses as.
use crate::error::{ErrorView, WebPilotError};
use crate::json;
use crate::json::{Json, JsonView};
use crate::model;
use crate::output::{CommandOutput, OutputView};
use crate::text;
use crate::text::{chars_of, dec, lower, same};
use vstd::prelude::*;
use vstd::string::StringExecFns;

verus! {

/// The arguments of `device`.
#[derive(Debug, PartialEq, Eq)]
pub struct DeviceArgs {
    pub command: DeviceCommand,
}

/// A scale factor: the number as it is shown and as JSON, and whether it is finite and positive.
#[derive(Debug, PartialEq, Eq)]
pub struct Scale {
    pub shown: String,
    pub wire: Json,
    pub positive: bool,
}

/// What `device` does.
#[derive(Debug, PartialEq, Eq)]
pub enum DeviceCommand {
    /// Poses as a device of one's own making.
    Custom { metrics: Metrics },
    /// Poses as a known device.
    Preset { name: String },
    /// Poses as no other device.
    Reset,
}

/// What a device is like.
#[derive(Debug, PartialEq, Eq)]
pub struct Metrics {
    pub width: u32,
    pub height: u32,
    pub mobile: bool,
    pub scale: Scale,
    pub user_agent: Option<String>,
}

/// A control character.
pub open spec fn is_control(c: char) -> bool {
    (c as int) < 0x20 || 0x7f <= (c as int) <= 0x9f
}

/// Whether a text holds a control character.
pub open spec fn has_control(s: Seq<char>) -> bool {
    exists|i: int| 0 <= i < s.len() && is_control(#[trigger] s[i])
}

fn control(c: char) -> (r: bool)
    ensures
        r == is_control(c),
{
    let n: u32 = c as u32;
    n < 0x20 || (0x7f <= n && n <= 0x9f)
}

fn holds_control(s: &str) -> (r: bool)
    ensures
        r == has_control(s@),
{
    let chars = chars_of(s);
    for i in 0..chars.len()
        invariant
            chars@ == s@,
            forall|j: int| 0 <= j < i ==> !is_control(#[trigger] s@[j]),
    {
        if control(chars[i]) {
            assert(is_control(s@[i as int]));
            return true;
        }
    }
    false
}

/// Why a device is refused, where it is: it has no extent or no scale, or its user agent could not
/// go in a header.
pub open spec fn refusal(m: Metrics) -> Option<ErrorView> {
    if m.width == 0 || m.height == 0 || !m.scale.positive {
        Some(
            ErrorView::InvalidArgument(
                "viewport must be positive (got "@ + text::decimal(m.width as nat) + "x"@
                    + text::decimal(m.height as nat) + ", scale "@ + m.scale.shown@ + ")"@,
            ),
        )
    } else if m.user_agent is Some && has_control(m.user_agent->0@) {
        Some(ErrorView::InvalidArgument("user agent must not contain control characters"@))
    } else {
        None
    }
}

/// Refuses a device that the browser could not pose as.
pub fn check(m: &Metrics) -> (r: Result<(), WebPilotError>)
    ensures
        r is Ok <==> refusal(*m) is None,
        r is Err ==> r->Err_0@ == refusal(*m)->0,
{
    if m.width == 0 || m.height == 0 || !m.scale.positive {
        return Err(
            WebPilotError::InvalidArgument {
                detail: "viewport must be positive (got ".to_owned().concat(
                    dec(m.width as u64).as_str(),
                ).concat("x").concat(dec(m.height as u64).as_str()).concat(", scale ").concat(
                    m.scale.shown.as_str(),
                ).concat(")"),
            },
        );
    }
    if let Some(ua) = &m.user_agent {
        if holds_control(ua.as_str()) {
            return Err(WebPilotError::invalid("user agent must not contain control characters"));
        }
    }
    Ok(())
}

/// `true` or `false`.
pub open spec fn bool_text(b: bool) -> Seq<char> {
    if b {
        "true"@
    } else {
        "false"@
    }
}

/// What posing as a device prints: all of what was applied.
pub open spec fn custom_output(m: Metrics) -> OutputView {
    OutputView::Data(
        JsonView::object().with("success"@, JsonView::Bool(true)).with(
            "width"@,
            JsonView::number(m.width as u64),
        ).with("height"@, JsonView::number(m.height as u64)).with(
            "mobile"@,
            JsonView::Bool(m.mobile),
        ).with("scale"@, m.scale.wire@).with(
            "user_agent"@,
            json::text_json(model::maybe(m.user_agent)),
        ),
        "Device: "@ + text::decimal(m.width as nat) + "x"@ + text::decimal(m.height as nat)
            + " (mobile="@ + bool_text(m.mobile) + ", scale="@ + m.scale.shown@ + ", user_agent="@
            + (if m.user_agent is Some {
            "custom"@
        } else {
            "default"@
        }) + ")"@,
    )
}

/// What posing as a device prints.
pub fn applied(m: &Metrics) -> (r: CommandOutput)
    ensures
        r@ == custom_output(*m),
{
    let mobile = if m.mobile {
        "true"
    } else {
        "false"
    };
    let agent = if m.user_agent.is_some() {
        "custom"
    } else {
        "default"
    };
    let json = Json::object().with("success", Json::Bool(true)).with(
        "width",
        Json::number(m.width as u64),
    ).with("height", Json::number(m.height as u64)).with("mobile", Json::Bool(m.mobile)).with(
        "scale",
        m.scale.wire.copy(),
    ).with("user_agent", Json::optional(&m.user_agent));
    let human = "Device: ".to_owned().concat(dec(m.width as u64).as_str()).concat("x").concat(
        dec(m.height as u64).as_str(),
    ).concat(" (mobile=").concat(mobile).concat(", scale=").concat(m.scale.shown.as_str()).concat(
        ", user_agent=",
    ).concat(agent).concat(")");
    CommandOutput::Data { json, human }
}

/// A known device. The scale is in thousandths.
#[derive(Debug, Clone, Copy, PartialEq, Eq)]
pub struct Preset {
    pub width: u32,
    pub height: u32,
    pub mobile: bool,
    pub scale_milli: u32,
    pub user_agent: &'static str,
}

/// What a known device is: width, height, scale in thousandths, user agent.
pub open spec fn preset_of(name: Seq<char>) -> Option<(u32, u32, u32, Seq<char>)> {
    let n = text::lowercase(name);
    if n == "iphone-15"@ || n == "iphone15"@ || n == "iphone-15-pro"@ || n == "iphone15pro"@ {
        Some(
            (
                393,
                852,
                3000,
                "Mozilla/5.0 (iPhone; CPU iPhone OS 17_0 like Mac OS X) AppleWebKit/605.1.15 (KHTML, like Gecko) Version/17.0 Mobile/15E148 Safari/604.1"@,
            ),
        )
    } else if n == "pixel-8"@ || n == "pixel8"@ {
        Some(
            (
                412,
                915,
                2625,
                "Mozilla/5.0 (Linux; Android 14; Pixel 8) AppleWebKit/537.36 (KHTML, like Gecko) Chrome/120.0.0.0 Mobile Safari/537.36"@,
            ),
        )
    } else if n == "ipad-pro"@ || n == "ipadpro"@ {
        Some(
            (
                1024,
                1366,
                2000,
                "Mozilla/5.0 (iPad; CPU OS 17_0 like Mac OS X) AppleWebKit/605.1.15 (KHTML, like Gecko) Version/17.0 Safari/604.1"@,
            ),
        )
    } else if n == "galaxy-s24"@ || n == "galaxys24"@ {
        Some(
            (
                360,
                780,
                3000,
                "Mozilla/5.0 (Linux; Android 14; SM-S921B) AppleWebKit/537.36 (KHTML, like Gecko) Chrome/120.0.0.0 Mobile Safari/537.36"@,
            ),
        )
    } else {
        None
    }
}

/// The known device of a name, whatever the case of its letters.
pub fn preset(name: &str) -> (r: Option<Preset>)
    ensures
        match preset_of(name@) {
            Some((width, height, scale, agent)) => {
                &&& r matches Some(p)
                &&& p.width == width
                &&& p.height == height
                &&& p.mobile
                &&& p.scale_milli == scale
                &&& p.user_agent@ == agent
            },
            None => r is None,
        },
{
    let n = lower(name);
    let n = n.as_str();
    if same(n, "iphone-15") || same(n, "iphone15") || same(n, "iphone-15-pro") || same(
        n,
        "iphone15pro",
    ) {
        Some(
            Preset {
                width: 393,
                height: 852,
                mobile: true,
                scale_milli: 3000,
                user_agent: "Mozilla/5.0 (iPhone; CPU iPhone OS 17_0 like Mac OS X) AppleWebKit/605.1.15 (KHTML, like Gecko) Version/17.0 Mobile/15E148 Safari/604.1",
            },
        )
    } else if same(n, "pixel-8") || same(n, "pixel8") {
        Some(
            Preset {
                width: 412,
                height: 915,
                mobile: true,
                scale_milli: 2625,
                user_agent: "Mozilla/5.0 (Linux; Android 14; Pixel 8) AppleWebKit/537.36 (KHTML, like Gecko) Chrome/120.0.0.0 Mobile Safari/537.36",
            },
        )
    } else if same(n, "ipad-pro") || same(n, "ipadpro") {
        Some(
            Preset {
                width: 1024,
                height: 1366,
                mobile: true,
                scale_milli: 2000,
                user_agent: "Mozilla/5.0 (iPad; CPU OS 17_0 like Mac OS X) AppleWebKit/605.1.15 (KHTML, like Gecko) Version/17.0 Safari/604.1",
            },
        )
    } else if same(n, "galaxy-s24") || same(n, "galaxys24") {
        Some(
            Preset {
                width: 360,
                height: 780,
                mobile: true,
                scale_milli: 3000,
                user_agent: "Mozilla/5.0 (Linux; Android 14; SM-S921B) AppleWebKit/537.36 (KHTML, like Gecko) Chrome/120.0.0.0 Mobile Safari/537.36",
            },
        )
    } else {
        None
    }
}

/// The error for a device that is not known.
pub open spec fn unknown_error(name: Seq<char>) -> ErrorView {
    ErrorView::InvalidArgument(
        "unknown preset '"@ + name
            + "'. Available: iphone-15, iphone-15-pro, pixel-8, ipad-pro, galaxy-s24"@,
    )
}

/// The error for a device that is not known.
pub fn unknown_preset(name: &str) -> (r: WebPilotError)
    ensures
        r@ == unknown_error(name@),
{
    WebPilotError::InvalidArgument {
        detail: "unknown preset '".to_owned().concat(name).concat(
            "'. Available: iphone-15, iphone-15-pro, pixel-8, ipad-pro, galaxy-s24",
        ),
    }
}

/// What posing as a known device prints.
pub fn preset_applied(name: &str, p: &Preset) -> (r: CommandOutput)
    ensures
        r@ == OutputView::Data(
            JsonView::object().with("success"@, JsonView::Bool(true)).with(
                "preset"@,
                JsonView::Str(name@),
            ).with("width"@, JsonView::number(p.width as u64)).with(
                "height"@,
                JsonView::number(p.height as u64),
            ),
            "Device: "@ + name@ + " ("@ + text::decimal(p.width as nat) + "x"@ + text::decimal(
                p.height as nat,
            ) + ")"@,
        ),
{
    let json = Json::object().with("success", Json::Bool(true)).with(
        "preset",
        Json::string(name),
    ).with("width", Json::number(p.width as u64)).with("height", Json::number(p.height as u64));
    let human = "Device: ".to_owned().concat(name).concat(" (").concat(
        dec(p.width as u64).as_str(),
    ).concat("x").concat(dec(p.height as u64).as_str()).concat(")");
    CommandOutput::Data { json, human }
}

/// What posing as no other device prints, or the error where it would be taken up again.
pub fn reset(removed: Result<(), String>) -> (r: Result<CommandOutput, WebPilotError>)
    ensures
        crate::error::outcome(r) == (match removed {
            Ok(_) => Ok(OutputView::Message("Device emulation cleared"@)),
            Err(e) => Err(
                ErrorView::Other(
                    "live emulation cleared, but removing the persisted device failed (it would re-apply on the next session): "@
                        + e@,
                ),
            ),
        }),
{
    match removed {
        Ok(_) => Ok(CommandOutput::Message("Device emulation cleared".to_owned())),
        Err(e) => Err(
            WebPilotError::Other {
                detail: "live emulation cleared, but removing the persisted device failed (it would re-apply on the next session): ".to_owned().concat(
                    e.as_str(),
                ),
            },
        ),
    }
}

/// What a device command takes: posing as a device, as a known one, or as none.
pub enum DevicePlan {
    Custom { metrics: Metrics },
    Known { name: String, preset: Preset },
    Reset,
}

/// Decides what a device command takes. `permitted` is what the rules say of the operation
/// `device`: whatever the command, nothing is done where they deny it.
pub fn run(permitted: Result<(), WebPilotError>, command: DeviceCommand) -> (r: Result<
    DevicePlan,
    WebPilotError,
>)
    ensures
        match permitted {
            Err(e) => r == Err::<DevicePlan, WebPilotError>(e),
            Ok(_) => match command {
                DeviceCommand::Custom { metrics } => match refusal(metrics) {
                    Some(e) => r is Err && r->Err_0@ == e,
                    None => r is Ok && r->Ok_0 is Custom && r->Ok_0->Custom_metrics == metrics,
                },
                DeviceCommand::Preset { name } => match preset_of(name@) {
                    None => r is Err && r->Err_0@ == unknown_error(name@),
                    Some((width, height, scale, agent)) => {
                        &&& r is Ok
                        &&& r->Ok_0 is Known
                        &&& r->Ok_0->name@ == name@
                        &&& r->Ok_0->preset.width == width
                        &&& r->Ok_0->preset.height == height
                        &&& r->Ok_0->preset.mobile
                        &&& r->Ok_0->preset.scale_milli == scale
                        &&& r->Ok_0->preset.user_agent@ == agent
                    },
                },
                DeviceCommand::Reset => r is Ok && r->Ok_0 is Reset,
            },
        },
{
    if let Err(e) = permitted {
        return Err(e);
    }
    match command {
        DeviceCommand::Custom { metrics } => match check(&metrics) {
            Ok(_) => Ok(DevicePlan::Custom { metrics }),
            Err(e) => Err(e),
        },
        DeviceCommand::Preset { name } => match preset(name.as_str()) {
            Some(preset) => Ok(DevicePlan::Known { name, preset }),
            None => Err(unknown_preset(name.as_str())),
        },
        DeviceCommand::Reset => Ok(DevicePlan::Reset),
    }
}

/// A device is taken exactly where it has an extent and a scale, and a user agent without control
/// characters; what is refused is told.
pub proof fn law_devices_are_checked(m: Metrics, r: Result<(), WebPilotError>)
    requires
        call_ensures(check, (&m,), r),
    ensures
        r is Ok <==> {
            &&& m.width > 0
            &&& m.height > 0
            &&& m.scale.positive
            &&& m.user_agent matches Some(ua) ==> forall|i: int|
                0 <= i < ua@.len() ==> {
                    let c = (#[trigger] ua@[i]) as int;
                    0x20 <= c < 0x7f || 0x9f < c
                }
        },
        r matches Err(e) ==> e is InvalidArgument,
        m.width == 0 || m.height == 0 || !m.scale.positive ==> (r matches Err(
            WebPilotError::InvalidArgument { detail },
        ) && text::holds(
            detail@,
            text::decimal(m.width as nat) + "x"@ + text::decimal(m.height as nat),
        ) && text::holds(detail@, m.scale.shown@)),
{
    let (w, h) = (text::decimal(m.width as nat), text::decimal(m.height as nat));
    let (head, mid, tail) = ("viewport must be positive (got "@, ", scale "@, ")"@);
    let s = m.scale.shown@;
    assert(head + w + "x"@ + h + mid + s + tail =~= head + (w + "x"@ + h) + (mid + s + tail));
    text::lemma_part(head, w + "x"@ + h, mid + s + tail);
    text::lemma_part(head + w + "x"@ + h + mid, s, tail);
    if let Some(ua) = m.user_agent {
        if has_control(ua@) {
            let i = choose|i: int| 0 <= i < ua@.len() && is_control(#[trigger] ua@[i]);
            assert(is_control(ua@[i]));
        } else {
            assert forall|i: int| 0 <= i < ua@.len() implies {
                let c = (#[trigger] ua@[i]) as int;
                0x20 <= c < 0x7f || 0x9f < c
            } by {
                assert(!is_control(ua@[i]));
            }
        }
    }
}

/// What posing as a device prints tells all of what was applied, each under its name.
pub proof fn law_devices_are_told(m: Metrics, r: CommandOutput)
    requires
        call_ensures(applied, (&m,), r),
    ensures
        r matches CommandOutput::Data { json, human } && {
            let number = |n: u32| Some(JsonView::Num(json::NumberView::Unsigned(n as u64)));
            &&& json@.get("success"@) == Some(JsonView::Bool(true))
            &&& json@.get("width"@) == number(m.width)
            &&& json@.get("height"@) == number(m.height)
            &&& json@.get("mobile"@) == Some(JsonView::Bool(m.mobile))
            &&& json@.get("scale"@) == Some(m.scale.wire@)
            &&& json@.get("user_agent"@) == Some(
                match m.user_agent {
                    Some(ua) => JsonView::Str(ua@),
                    None => JsonView::Null,
                },
            )
            &&& text::has_prefix(
                human@,
                "Device: "@ + text::decimal(m.width as nat) + "x"@ + text::decimal(m.height as nat),
            )
            &&& text::holds(human@, m.scale.shown@)
            &&& text::holds(
                human@,
                if m.mobile {
                    "true"@
                } else {
                    "false"@
                },
            )
        },
{
    reveal_strlit("success");
    reveal_strlit("width");
    reveal_strlit("height");
    reveal_strlit("mobile");
    reveal_strlit("scale");
    reveal_strlit("user_agent");
    assert("success"@.len() == 7);
    assert("width"@.len() == 5);
    assert("height"@.len() == 6);
    assert("mobile"@.len() == 6);
    assert("scale"@.len() == 5);
    assert("user_agent"@.len() == 10);
    assert("width"@[0] != "scale"@[0]);
    assert("height"@[0] != "mobile"@[0]);
    if let CommandOutput::Data { json, human } = r {
        let front = "Device: "@ + text::decimal(m.width as nat) + "x"@ + text::decimal(
            m.height as nat,
        );
        let agent = if m.user_agent is Some {
            "custom"@
        } else {
            "default"@
        };
        let b = bool_text(m.mobile);
        let s = m.scale.shown@;
        let end = ", user_agent="@ + agent + ")"@;
        assert(human@ =~= front + (" (mobile="@ + b + ", scale="@ + s + end));
        text::lemma_front(front, " (mobile="@ + b + ", scale="@ + s + end);
        assert(human@ =~= (front + " (mobile="@) + b + (", scale="@ + s + end));
        text::lemma_part(front + " (mobile="@, b, ", scale="@ + s + end);
        assert(human@ =~= (front + " (mobile="@ + b + ", scale="@) + s + end);
        text::lemma_part(front + " (mobile="@ + b + ", scale="@, s, end);
    }
}

/// A known device is found by its name with or without hyphens and whatever the case of its letters:
/// each is upright and mobile, of its own extent and scale. Another name is no device.
pub proof fn law_known_devices(name: &str, r: Option<Preset>)
    requires
        call_ensures(preset, (name,), r),
    ensures
        ({
            let called = |a: Seq<char>, b: Seq<char>|
                text::lowercase(name@) == a || text::lowercase(name@) == b;
            let is = |width: u32, height: u32, scale: u32|
                r matches Some(p) && p.width == width && p.height == height && p.scale_milli
                    == scale && p.mobile;
            &&& called("iphone-15"@, "iphone15"@) ==> is(393, 852, 3000)
            &&& called("iphone-15-pro"@, "iphone15pro"@) ==> is(393, 852, 3000)
            &&& called("pixel-8"@, "pixel8"@) ==> is(412, 915, 2625)
            &&& called("ipad-pro"@, "ipadpro"@) ==> is(1024, 1366, 2000)
            &&& called("galaxy-s24"@, "galaxys24"@) ==> is(360, 780, 3000)
            &&& r is Some ==> called("iphone-15"@, "iphone15"@) || called(
                "iphone-15-pro"@,
                "iphone15pro"@,
            ) || called("pixel-8"@, "pixel8"@) || called("ipad-pro"@, "ipadpro"@) || called(
                "galaxy-s24"@,
                "galaxys24"@,
            )
            &&& r matches Some(p) ==> p.width < p.height && p.user_agent@ == (
            if called("pixel-8"@, "pixel8"@) {
                "Mozilla/5.0 (Linux; Android 14; Pixel 8) AppleWebKit/537.36 (KHTML, like Gecko) Chrome/120.0.0.0 Mobile Safari/537.36"@
            } else if called("ipad-pro"@, "ipadpro"@) {
                "Mozilla/5.0 (iPad; CPU OS 17_0 like Mac OS X) AppleWebKit/605.1.15 (KHTML, like Gecko) Version/17.0 Safari/604.1"@
            } else if called("galaxy-s24"@, "galaxys24"@) {
                "Mozilla/5.0 (Linux; Android 14; SM-S921B) AppleWebKit/537.36 (KHTML, like Gecko) Chrome/120.0.0.0 Mobile Safari/537.36"@
            } else {
                "Mozilla/5.0 (iPhone; CPU iPhone OS 17_0 like Mac OS X) AppleWebKit/605.1.15 (KHTML, like Gecko) Version/17.0 Mobile/15E148 Safari/604.1"@
            })
        }),
{
    reveal_strlit("iphone-15");
    reveal_strlit("iphone15");
    reveal_strlit("iphone-15-pro");
    reveal_strlit("iphone15pro");
    reveal_strlit("pixel-8");
    reveal_strlit("pixel8");
    reveal_strlit("ipad-pro");
    reveal_strlit("ipadpro");
    reveal_strlit("galaxy-s24");
    reveal_strlit("galaxys24");
    assert("iphone-15"@.len() == 9);
    assert("iphone15"@.len() == 8);
    assert("iphone-15-pro"@.len() == 13);
    assert("iphone15pro"@.len() == 11);
    assert("pixel-8"@.len() == 7);
    assert("pixel8"@.len() == 6);
    assert("ipad-pro"@.len() == 8);
    assert("ipadpro"@.len() == 7);
    assert("galaxy-s24"@.len() == 10);
    assert("galaxys24"@.len() == 9);
    assert("iphone-15"@[0] != "galaxys24"@[0]);
    assert("iphone15"@[2] != "ipad-pro"@[2]);
    assert("pixel-8"@[0] != "ipadpro"@[0]);
}

/// A device command is done only where the rules permit it, and as it is given: the device that is
/// described, the known one of the name, or none. What is known of a name, and what is refused, is as
/// looking it up and checking it say.
pub proof fn law_device_commands(
    permitted: Result<(), WebPilotError>,
    command: DeviceCommand,
    r: Result<DevicePlan, WebPilotError>,
    asked: &str,
    known: Option<Preset>,
)
    requires
        call_ensures(run, (permitted, command), r),
        command matches DeviceCommand::Preset { name } ==> asked@ == name@,
        call_ensures(preset, (asked,), known),
    ensures
        permitted matches Err(e) ==> r matches Err(told) && told == e,
        permitted is Ok ==> match command {
            DeviceCommand::Reset => r matches Ok(DevicePlan::Reset),
            DeviceCommand::Custom { metrics } => {
                &&& r is Ok <==> metrics.width > 0 && metrics.height > 0 && metrics.scale.positive && !(
                metrics.user_agent is Some && has_control(metrics.user_agent->0@))
                &&& r is Ok ==> (r matches Ok(DevicePlan::Custom { metrics: m }) && m == metrics)
            },
            DeviceCommand::Preset { name } => {
                &&& r is Err ==> (r->Err_0 matches WebPilotError::InvalidArgument { detail }
                    && text::holds(detail@, name@))
                &&& r is Ok ==> (r matches Ok(DevicePlan::Known { name: n, preset: p }) && n@ == name@
                    && known is Some && p.width == known->0.width && p.height == known->0.height
                    && p.mobile == known->0.mobile && p.scale_milli == known->0.scale_milli
                    && p.user_agent@ == known->0.user_agent@)
                &&& r is Ok <==> known is Some
            },
        },
{
    if let DeviceCommand::Preset { name } = command {
        text::lemma_part(
            "unknown preset '"@,
            name@,
            "'. Available: iphone-15, iphone-15-pro, pixel-8, ipad-pro, galaxy-s24"@,
        );
    }
}

/// Posing as a known device tells its name and extent; posing as none fails exactly where the record
/// of the device could not be removed, and then tells why.
pub proof fn law_known_devices_are_told(
    name: &str,
    p: Preset,
    r: CommandOutput,
    removed: Result<(), String>,
    cleared: Result<CommandOutput, WebPilotError>,
)
    requires
        call_ensures(preset_applied, (name, &p), r),
        call_ensures(reset, (removed,), cleared),
    ensures
        r matches CommandOutput::Data { json, human } && {
            let number = |n: u32| Some(JsonView::Num(json::NumberView::Unsigned(n as u64)));
            &&& json@.get("preset"@) == Some(JsonView::Str(name@))
            &&& json@.get("width"@) == number(p.width)
            &&& json@.get("height"@) == number(p.height)
            &&& json@.get("success"@) == Some(JsonView::Bool(true))
            &&& text::holds(human@, name@)
            &&& text::has_suffix(
                human@,
                " ("@ + text::decimal(p.width as nat) + "x"@ + text::decimal(p.height as nat)
                    + ")"@,
            )
        },
        cleared is Ok <==> removed is Ok,
        removed matches Err(e) ==> (cleared->Err_0 matches WebPilotError::Other { detail }
            && text::has_suffix(detail@, e@)),
{
    reveal_strlit("success");
    reveal_strlit("preset");
    reveal_strlit("width");
    reveal_strlit("height");
    assert("success"@.len() == 7);
    assert("preset"@.len() == 6);
    assert("width"@.len() == 5);
    assert("height"@.len() == 6);
    assert("preset"@[0] != "height"@[0]);
    if let CommandOutput::Data { json, human } = r {
        let end = " ("@ + text::decimal(p.width as nat) + "x"@ + text::decimal(p.height as nat)
            + ")"@;
        assert(human@ =~= "Device: "@ + name@ + end);
        text::lemma_part("Device: "@, name@, end);
        text::lemma_back("Device: "@ + name@, end);
    }
    if let Err(e) = removed {
        text::lemma_back(
            "live emulation cleared, but removing the persisted device failed (it would re-apply on the next session): "@,
            e@,
        );
    }
}

/// A device that is not known is named in the error.
pub proof fn law_unknown_devices_are_named(name: &str, r: WebPilotError)
    requires
        call_ensures(unknown_preset, (name,), r),
    ensures
        r matches WebPilotError::InvalidArgument { detail } && text::holds(
            detail@,
            "'"@ + name@ + "'"@,
        ),
{
    reveal_strlit("unknown preset '");
    reveal_strlit("unknown preset ");
    reveal_strlit("'");
    reveal_strlit("'. Available: iphone-15, iphone-15-pro, pixel-8, ipad-pro, galaxy-s24");
    reveal_strlit(". Available: iphone-15, iphone-15-pro, pixel-8, ipad-pro, galaxy-s24");
    let tail = ". Available: iphone-15, iphone-15-pro, pixel-8, ipad-pro, galaxy-s24"@;
    assert("unknown preset '"@ =~= "unknown preset "@ + "'"@);
    assert("'. Available: iphone-15, iphone-15-pro, pixel-8, ipad-pro, galaxy-s24"@ =~= "'"@ + tail);
    if let WebPilotError::InvalidArgument { detail } = r {
        assert(detail@ =~= "unknown preset "@ + ("'"@ + name@ + "'"@) + tail);
        text::lemma_part("unknown preset "@, "'"@ + name@ + "'"@, tail);
    }
}

} // verus!
