//! Devices that the browser can pass for.
use crate::commands::device;
use crate::headless;
use crate::headless::{Failure, FailureView};
use crate::json::{Json, JsonView};
use crate::output::{CommandOutput, OutputView};
use crate::text;
use crate::text::dec;
use vstd::prelude::*;
use vstd::string::StringExecFns;

verus! {

/// A device: the size of its screen, how many of its points make one of the page's, in
/// thousandths, and what it calls itself.
#[derive(Debug, Clone, Copy, PartialEq, Eq)]
pub struct Device {
    pub width: u64,
    pub height: u64,
    pub mobile: bool,
    pub scale_milli: u64,
    pub user_agent: &'static str,
}

/// What a device is.
pub struct DeviceView {
    pub width: u64,
    pub height: u64,
    pub mobile: bool,
    pub scale_milli: u64,
    pub user_agent: Seq<char>,
}

impl View for Device {
    type V = DeviceView;

    open spec fn view(&self) -> DeviceView {
        DeviceView {
            width: self.width,
            height: self.height,
            mobile: self.mobile,
            scale_milli: self.scale_milli,
            user_agent: self.user_agent@,
        }
    }
}

/// The device that goes by a name, whatever the case of its letters.
pub open spec fn device_of(name: Seq<char>) -> Option<DeviceView> {
    match device::preset_of(name) {
        Some((width, height, scale_milli, user_agent)) => Some(
            DeviceView {
                width: width as u64,
                height: height as u64,
                mobile: true,
                scale_milli: scale_milli as u64,
                user_agent,
            },
        ),
        None => None,
    }
}

/// The device that goes by a name, whatever the case of its letters.
pub fn preset(name: &str) -> (r: Result<Device, Failure>)
    ensures
        headless::outcome(r) == (match device_of(name@) {
            Some(d) => Ok(d),
            None => Err(
                FailureView::Plain(
                    "Unknown preset '"@ + name@
                        + "'. Available: iphone-15, iphone-15-pro, pixel-8, ipad-pro, galaxy-s24"@,
                ),
            ),
        }),
{
    match device::preset(name) {
        Some(p) => Ok(
            Device {
                width: p.width as u64,
                height: p.height as u64,
                mobile: p.mobile,
                scale_milli: p.scale_milli as u64,
                user_agent: p.user_agent,
            },
        ),
        None => Err(
            Failure::Plain(
                "Unknown preset '".to_owned().concat(name).concat(
                    "'. Available: iphone-15, iphone-15-pro, pixel-8, ipad-pro, galaxy-s24",
                ),
            ),
        ),
    }
}

/// What has the browser pass for a screen. The factor of the screen is a number, as JSON.
pub fn metrics_params(width: u64, height: u64, scale: Json, mobile: bool) -> (r: Json)
    ensures
        r@ == JsonView::object().with("width"@, JsonView::number(width)).with(
            "height"@,
            JsonView::number(height),
        ).with("deviceScaleFactor"@, scale@).with("mobile"@, JsonView::Bool(mobile)),
{
    Json::object().with("width", Json::number(width)).with("height", Json::number(height)).with(
        "deviceScaleFactor",
        scale,
    ).with("mobile", Json::Bool(mobile))
}

/// What has the browser call itself something; nothing stands for its own name.
pub fn user_agent_params(user_agent: &str) -> (r: Json)
    ensures
        r@ == JsonView::object().with("userAgent"@, JsonView::Str(user_agent@)),
{
    Json::object().with("userAgent", Json::string(user_agent))
}

/// What is printed for a device that goes by a name.
pub fn preset_output(name: &str, d: &Device) -> (r: CommandOutput)
    ensures
        r@ == OutputView::Data(
            JsonView::object().with("success"@, JsonView::Bool(true)).with(
                "preset"@,
                JsonView::Str(name@),
            ).with("width"@, JsonView::number(d.width)).with(
                "height"@,
                JsonView::number(d.height),
            ),
            "Device: "@ + name@ + " ("@ + text::decimal(d.width as nat) + "x"@ + text::decimal(
                d.height as nat,
            ) + ")"@,
        ),
{
    let json = Json::object().with("success", Json::Bool(true)).with(
        "preset",
        Json::string(name),
    ).with("width", Json::number(d.width)).with("height", Json::number(d.height));
    let human = "Device: ".to_owned().concat(name).concat(" (").concat(
        dec(d.width).as_str(),
    ).concat("x").concat(dec(d.height).as_str()).concat(")");
    CommandOutput::Data { json, human }
}

/// A device of the headless browser is the known device of the name, and an unknown name is told.
pub proof fn law_devices_are_the_known_ones(name: &str, known: Option<device::Preset>, r: Result<Device, Failure>)
    requires
        call_ensures(device::preset, (name,), known),
        call_ensures(preset, (name,), r),
    ensures
        r is Ok <==> known is Some,
        known matches Some(p) ==> {
            &&& r->Ok_0.width == p.width
            &&& r->Ok_0.height == p.height
            &&& r->Ok_0.mobile == p.mobile
            &&& r->Ok_0.scale_milli == p.scale_milli
            &&& r->Ok_0.user_agent@ == p.user_agent@
        },
        r matches Err(e) ==> (e matches Failure::Plain(m) && text::holds(m@, name@)),
{
    text::lemma_part(
        "Unknown preset '"@,
        name@,
        "'. Available: iphone-15, iphone-15-pro, pixel-8, ipad-pro, galaxy-s24"@,
    );
}

/// What the browser is asked to pass for is what the device is: its extent, scale, kind and user
/// agent, each under its name. What is printed tells the device and its extent.
pub proof fn law_the_browser_passes_for_the_device(
    width: u64,
    height: u64,
    scale: Json,
    mobile: bool,
    metrics: Json,
    user_agent: &str,
    agent: Json,
    name: &str,
    d: Device,
    r: CommandOutput,
)
    requires
        call_ensures(metrics_params, (width, height, scale, mobile), metrics),
        call_ensures(user_agent_params, (user_agent,), agent),
        call_ensures(preset_output, (name, &d), r),
    ensures
        ({
            let number = |n: u64| Some(JsonView::Num(crate::json::NumberView::Unsigned(n)));
            &&& metrics@.get("width"@) == number(width)
            &&& metrics@.get("height"@) == number(height)
            &&& metrics@.get("deviceScaleFactor"@) == Some(scale@)
            &&& metrics@.get("mobile"@) == Some(JsonView::Bool(mobile))
            &&& agent@.get("userAgent"@) == Some(JsonView::Str(user_agent@))
            &&& r matches CommandOutput::Data { json, human } && {
                &&& json@.get("preset"@) == Some(JsonView::Str(name@))
                &&& json@.get("width"@) == number(d.width)
                &&& json@.get("height"@) == number(d.height)
                &&& json@.get("success"@) == Some(JsonView::Bool(true))
                &&& text::has_suffix(
                    human@,
                    name@ + " ("@ + text::decimal(d.width as nat) + "x"@ + text::decimal(
                        d.height as nat,
                    ) + ")"@,
                )
            }
        }),
{
    reveal_strlit("width");
    reveal_strlit("height");
    reveal_strlit("deviceScaleFactor");
    reveal_strlit("mobile");
    assert("width"@.len() == 5);
    assert("height"@.len() == 6);
    assert("deviceScaleFactor"@.len() == 17);
    assert("mobile"@.len() == 6);
    assert("height"@[0] != "mobile"@[0]);
    reveal_strlit("success");
    reveal_strlit("preset");
    assert("success"@.len() == 7);
    assert("preset"@.len() == 6);
    reveal_strlit("success");
    reveal_strlit("preset");
    reveal_strlit("width");
    reveal_strlit("height");
    assert("success"@.len() == 7);
    assert("preset"@.len() == 6);
    assert("width"@.len() == 5);
    assert("height"@.len() == 6);
    assert("preset"@[0] != "height"@[0]);
    if let CommandOutput::Data { json, human } = r {
        let end = name@ + " ("@ + text::decimal(d.width as nat) + "x"@ + text::decimal(
            d.height as nat,
        ) + ")"@;
        assert(human@ =~= "Device: "@ + end);
        text::lemma_back("Device: "@, end);
    }
}

} // verus!
