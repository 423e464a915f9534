//! `action`: one action on the page, and what it did.
use crate::error;
use crate::error::{ErrorView, WebPilotError};
use crate::json::{Json, JsonView};
use crate::model;
use crate::output::{CommandOutput, OutputView};
use crate::protocol;
use crate::protocol::{lift_error, ActionData, Reply};
use crate::text;
use crate::text::line_safe_clip;
use vstd::prelude::*;
use vstd::string::StringExecFns;

verus! {

/// The arguments of `action`: the action in its wire form, and whether to capture the page after.
#[derive(Debug, PartialEq, Eq)]
pub struct ActionArgs {
    pub action: Json,
    pub capture: bool,
}

/// What the file system says of a file to upload: its full path, whether it is a regular file, and
/// whether it can be opened; the reason where an answer could not be had.
pub struct UploadProbe {
    pub resolved: Result<String, String>,
    pub regular: Result<bool, String>,
    pub opened: Result<(), String>,
}

/// What a file to upload comes to: its full path, or why it cannot be uploaded.
pub open spec fn upload_outcome(path: Seq<char>, probe: UploadProbe) -> Result<Seq<char>, ErrorView> {
    match probe.resolved {
        Err(e) => Err(
            ErrorView::InvalidArgument("upload path not found: "@ + path + " ("@ + e@ + ")"@),
        ),
        Ok(full) => match probe.regular {
            Err(e) => Err(
                ErrorView::InvalidArgument(
                    "upload path not readable: "@ + full@ + " ("@ + e@ + ")"@,
                ),
            ),
            Ok(false) => Err(
                ErrorView::InvalidArgument("upload path is not a regular file: "@ + full@),
            ),
            Ok(true) => match probe.opened {
                Err(e) => Err(
                    ErrorView::InvalidArgument(
                        "upload file not readable: "@ + full@ + " ("@ + e@ + ")"@,
                    ),
                ),
                Ok(_) => Ok(full@),
            },
        },
    }
}

fn because(what: &str, path: &str, reason: &str) -> (r: WebPilotError)
    ensures
        r@ == ErrorView::InvalidArgument(what@ + path@ + " ("@ + reason@ + ")"@),
{
    WebPilotError::InvalidArgument {
        detail: what.to_owned().concat(path).concat(" (").concat(reason).concat(")"),
    }
}

/// The full path of a file to upload: only a regular file that can be opened goes on the wire.
pub fn check_upload(path: &str, probe: UploadProbe) -> (r: Result<String, WebPilotError>)
    ensures
        error::outcome(r) == upload_outcome(path@, probe),
{
    match probe.resolved {
        Err(e) => Err(because("upload path not found: ", path, e.as_str())),
        Ok(full) => match probe.regular {
            Err(e) => Err(because("upload path not readable: ", full.as_str(), e.as_str())),
            Ok(false) => Err(
                WebPilotError::InvalidArgument {
                    detail: "upload path is not a regular file: ".to_owned().concat(full.as_str()),
                },
            ),
            Ok(true) => match probe.opened {
                Err(e) => Err(because("upload file not readable: ", full.as_str(), e.as_str())),
                Ok(_) => Ok(full),
            },
        },
    }
}

/// The fields that tell what an action did to the browser.
pub open spec fn effect_fields(
    object: JsonView,
    url_changed: Option<Seq<char>>,
    new_tab: Option<protocol::TabView>,
) -> JsonView {
    let with_url = match url_changed {
        Some(url) => object.with("url_changed"@, JsonView::Str(url)),
        None => object,
    };
    match new_tab {
        Some(tab) => with_url.with("new_tab"@, tab.wire),
        None => with_url,
    }
}

/// The message of an action that succeeded.
pub open spec fn action_message(
    url_changed: Option<Seq<char>>,
    new_tab: Option<protocol::TabView>,
    capture_error: Option<Seq<char>>,
) -> Seq<char> {
    let m1 = match url_changed {
        Some(url) => "OK"@ + "\nURL changed: "@ + text::clipped(text::one_line(url), 200),
        None => "OK"@,
    };
    let m2 = match new_tab {
        Some(tab) => m1 + "\nNew tab opened: "@ + text::clipped(text::one_line(tab.url), 200)
            + " (switched automatically)"@,
        None => m1,
    };
    match capture_error {
        Some(e) => m2 + "\nCapture failed (the action itself succeeded): "@ + e
            + " — re-run `webpilot capture --include dom`"@,
        None => m2,
    }
}

/// What an action that succeeded prints: the snapshot taken after it, or what it did.
pub open spec fn action_output(
    dom: Option<JsonView>,
    url_changed: Option<Seq<char>>,
    new_tab: Option<protocol::TabView>,
    capture_error: Option<Seq<char>>,
) -> OutputView {
    match dom {
        Some(snapshot) => OutputView::Dom(
            snapshot,
            effect_fields(JsonView::object(), url_changed, new_tab),
        ),
        None => if url_changed is Some || new_tab is Some || capture_error is Some {
            let effects = effect_fields(
                JsonView::object().with("success"@, JsonView::Bool(true)),
                url_changed,
                new_tab,
            );
            OutputView::Data(
                match capture_error {
                    Some(e) => effects.with("capture_error"@, JsonView::Str(e)),
                    None => effects,
                },
                action_message(url_changed, new_tab, capture_error),
            )
        } else {
            OutputView::Message(action_message(url_changed, new_tab, capture_error))
        },
    }
}

/// What an action prints, or why it failed.
pub open spec fn run_outcome(reply: Reply<ActionData>) -> Result<OutputView, ErrorView> {
    match reply {
        Reply::Data(d) => if d.success {
            Ok(
                action_output(
                    model::maybe(d.dom),
                    model::maybe(d.url_changed),
                    model::maybe(d.new_tab),
                    model::maybe(d.capture_error),
                ),
            )
        } else {
            Err(protocol::failure(model::maybe(d.error)))
        },
        _ => Err(protocol::no_data(reply)),
    }
}

fn with_effects(object: Json, d: &ActionData) -> (r: Json)
    ensures
        r@ == effect_fields(object@, model::maybe(d.url_changed), model::maybe(d.new_tab)),
{
    let mut object = object;
    if let Some(url) = &d.url_changed {
        object = object.with("url_changed", Json::string(url.as_str()));
    }
    if let Some(tab) = &d.new_tab {
        object = object.with("new_tab", tab.wire.copy());
    }
    object
}

fn message_of(d: &ActionData) -> (r: String)
    ensures
        r@ == action_message(
            model::maybe(d.url_changed),
            model::maybe(d.new_tab),
            model::maybe(d.capture_error),
        ),
{
    let mut msg = "OK".to_owned();
    if let Some(url) = &d.url_changed {
        msg.append("\nURL changed: ");
        msg.append(line_safe_clip(url.as_str(), 200).as_str());
    }
    if let Some(tab) = &d.new_tab {
        msg.append("\nNew tab opened: ");
        msg.append(line_safe_clip(tab.url.as_str(), 200).as_str());
        msg.append(" (switched automatically)");
    }
    if let Some(e) = &d.capture_error {
        msg.append("\nCapture failed (the action itself succeeded): ");
        msg.append(e.as_str());
        msg.append(" — re-run `webpilot capture --include dom`");
    }
    msg
}

/// What an action prints, or why it failed. A failure is an error whatever else came with it.
pub fn run(reply: Reply<ActionData>) -> (r: Result<CommandOutput, WebPilotError>)
    ensures
        error::outcome(r) == run_outcome(reply),
{
    let d = match reply.data() {
        Ok(d) => d,
        Err(e) => {
            return Err(e);
        },
    };
    if !d.success {
        return lift_error(false, d.error, CommandOutput::Message(String::new()));
    }
    if let Some(snapshot) = &d.dom {
        return Ok(
            CommandOutput::Dom {
                snapshot: snapshot.copy(),
                extra: with_effects(Json::object(), &d),
            },
        );
    }
    let human = message_of(&d);
    if d.url_changed.is_some() || d.new_tab.is_some() || d.capture_error.is_some() {
        let mut json = with_effects(Json::object().with("success", Json::Bool(true)), &d);
        if let Some(e) = &d.capture_error {
            json = json.with("capture_error", Json::string(e.as_str()));
        }
        Ok(CommandOutput::Data { json, human })
    } else {
        Ok(CommandOutput::Message(human))
    }
}

/// A file is uploaded by its full path exactly where that is known, it is a regular file, and it can be
/// opened; what fails first is told, with its reason.
pub proof fn law_uploads_are_checked(path: &str, probe: UploadProbe, r: Result<String, WebPilotError>)
    requires
        call_ensures(check_upload, (path, probe), r),
    ensures
        r is Ok <==> probe.resolved is Ok && probe.regular == Ok::<bool, String>(true) && probe.opened
            is Ok,
        r matches Ok(full) ==> full@ == probe.resolved->Ok_0@,
        r matches Err(e) ==> (e matches WebPilotError::InvalidArgument { detail } && {
            &&& probe.resolved matches Err(why) ==> text::holds(detail@, path@) && text::holds(
                detail@,
                why@,
            )
            &&& probe.resolved matches Ok(full) ==> text::holds(detail@, full@)
            &&& probe.resolved is Ok ==> (probe.regular matches Err(why) ==> text::holds(
                detail@,
                why@,
            ))
            &&& probe.resolved is Ok && probe.regular == Ok::<bool, String>(true) ==> (
            probe.opened matches Err(why) ==> text::holds(detail@, why@))
        }),
{
    if let Err(why) = probe.resolved {
        lemma_reasons("upload path not found: "@, path@, why@);
    }
    if let Ok(full) = probe.resolved {
        if let Err(why) = probe.regular {
            lemma_reasons("upload path not readable: "@, full@, why@);
        }
        if let Err(why) = probe.opened {
            lemma_reasons("upload file not readable: "@, full@, why@);
        }
        let all = "upload path is not a regular file: "@ + full@;
        assert(all =~= all + Seq::<char>::empty());
        text::lemma_part("upload path is not a regular file: "@, full@, Seq::empty());
    }
}

proof fn lemma_reasons(what: Seq<char>, path: Seq<char>, why: Seq<char>)
    ensures
        text::holds(what + path + " ("@ + why + ")"@, path),
        text::holds(what + path + " ("@ + why + ")"@, why),
{
    let all = what + path + " ("@ + why + ")"@;
    text::lemma_part(what + path + " ("@, why, ")"@);
    assert(all =~= what + path + (" ("@ + why + ")"@));
    text::lemma_part(what, path, " ("@ + why + ")"@);
}

/// What an action did is printed: the snapshot where there is one, with where the page went and the tab
/// that opened; else those, and why the page could not be captured, where there is any of it. A failure
/// is an error.
pub proof fn law_actions_are_told(d: ActionData, r: Result<CommandOutput, WebPilotError>)
    requires
        call_ensures(run, (Reply::Data(d),), r),
    ensures
        r is Ok <==> d.success,
        r matches Ok(o) ==> {
            let effects = |j: JsonView|
                {
                    &&& d.url_changed matches Some(u) ==> j.get("url_changed"@) == Some(
                        JsonView::Str(u@),
                    )
                    &&& d.url_changed is None ==> j.get("url_changed"@) is None
                    &&& d.new_tab matches Some(t) ==> j.get("new_tab"@) == Some(t.wire@)
                    &&& d.new_tab is None ==> j.get("new_tab"@) is None
                };
            &&& d.dom matches Some(s) ==> (o matches CommandOutput::Dom { snapshot, extra }
                && snapshot@ == s@ && effects(extra@))
            &&& d.dom is None && d.url_changed is None && d.new_tab is None && d.capture_error is None
                ==> (o matches CommandOutput::Message(m) && m@ == "OK"@)
            &&& d.dom is None && (d.url_changed is Some || d.new_tab is Some || d.capture_error
                is Some) ==> (o matches CommandOutput::Data { json, human } && {
                &&& json@.get("success"@) == Some(JsonView::Bool(true))
                &&& effects(json@)
                &&& d.capture_error matches Some(e) ==> json@.get("capture_error"@) == Some(
                    JsonView::Str(e@),
                ) && text::holds(human@, e@)
                &&& d.capture_error is None ==> json@.get("capture_error"@) is None
                &&& d.url_changed matches Some(u) ==> text::holds(
                    human@,
                    text::clipped(text::one_line(u@), 200),
                )
                &&& d.new_tab matches Some(t) ==> text::holds(
                    human@,
                    text::clipped(text::one_line(t.url@), 200),
                )
                &&& text::has_prefix(human@, "OK"@)
            })
        },
{
    reveal_strlit("url_changed");
    reveal_strlit("new_tab");
    reveal_strlit("success");
    reveal_strlit("capture_error");
    assert("url_changed"@.len() == 11);
    assert("new_tab"@.len() == 7);
    assert("success"@.len() == 7);
    assert("capture_error"@.len() == 13);
    assert("new_tab"@[0] != "success"@[0]);
    if let Ok(CommandOutput::Data { json, human }) = r {
        let ok = "OK"@;
        let a = match model::maybe(d.url_changed) {
            Some(u) => "\nURL changed: "@ + text::clipped(text::one_line(u), 200),
            None => Seq::empty(),
        };
        let b = match d.new_tab {
            Some(t) => "\nNew tab opened: "@ + text::clipped(text::one_line(t.url@), 200)
                + " (switched automatically)"@,
            None => Seq::empty(),
        };
        let c = match model::maybe(d.capture_error) {
            Some(e) => "\nCapture failed (the action itself succeeded): "@ + e
                + " — re-run `webpilot capture --include dom`"@,
            None => Seq::empty(),
        };
        assert(human@ =~= ok + a + b + c);
        lemma_all_stand(ok, a, b, c);
        if let Some(u) = d.url_changed {
            let t = text::clipped(text::one_line(u@), 200);
            assert(a =~= "\nURL changed: "@ + t + Seq::<char>::empty());
            lemma_within(human@, a, "\nURL changed: "@, t, Seq::empty());
        }
        if let Some(tab) = d.new_tab {
            let t = text::clipped(text::one_line(tab.url@), 200);
            lemma_within(human@, b, "\nNew tab opened: "@, t, " (switched automatically)"@);
        }
        if let Some(e) = d.capture_error {
            lemma_within(
                human@,
                c,
                "\nCapture failed (the action itself succeeded): "@,
                e@,
                " — re-run `webpilot capture --include dom`"@,
            );
        }
    }
}

proof fn lemma_all_stand(ok: Seq<char>, a: Seq<char>, b: Seq<char>, c: Seq<char>)
    ensures
        text::has_prefix(ok + a + b + c, ok),
        text::holds(ok + a + b + c, a),
        text::holds(ok + a + b + c, b),
        text::holds(ok + a + b + c, c),
{
    let all = ok + a + b + c;
    assert(all =~= ok + (a + b + c));
    text::lemma_front(ok, a + b + c);
    assert(all =~= ok + a + (b + c));
    text::lemma_part(ok, a, b + c);
    text::lemma_part(ok + a, b, c);
    assert(all =~= (ok + a + b) + c + Seq::<char>::empty());
    text::lemma_part(ok + a + b, c, Seq::empty());
}

/// A part of a part of a text is a part of the text.
proof fn lemma_within(all: Seq<char>, part: Seq<char>, x: Seq<char>, y: Seq<char>, z: Seq<char>)
    ensures
        text::holds(all, part) && part == x + y + z ==> text::holds(all, y),
{
    if text::holds(all, part) && part == x + y + z {
        let at = choose|at: int| text::stands_at(all, part, at);
        let k = at + x.len();
        assert(all.subrange(k, k + y.len()) =~= part.subrange(
            x.len() as int,
            x.len() as int + y.len(),
        ));
        assert(part.subrange(x.len() as int, x.len() as int + y.len()) =~= y);
        assert(text::stands_at(all, y, k));
    }
}

} // verus!
