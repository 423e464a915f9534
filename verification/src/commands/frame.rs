//! `frame`: the frames of the page, and which one commands go to.
use crate::error;
use crate::error::{ErrorView, WebPilotError};
use crate::json;
use crate::json::{Json, JsonView};
use crate::model;
use crate::output::{CommandOutput, OutputView};
use crate::protocol;
use crate::protocol::{lift_error, Reply};
use crate::text;
use crate::text::{clip, dec, line_safe_clip, same};
use crate::url_glob;
use crate::url_glob::is_blank;
use vstd::prelude::*;
use vstd::string::StringExecFns;

verus! {

broadcast use {text::group_texts, json::group_json_views};

/// The arguments of `frame`: a listing where no command is given.
#[derive(Debug, PartialEq, Eq)]
pub struct FrameArgs {
    pub command: Option<FrameCommand>,
}

/// What `frame` does.
#[derive(Debug, PartialEq, Eq)]
pub enum FrameCommand {
    /// Goes to the frame of a name.
    Switch { name: String },
    /// Goes to the frame whose URL matches a pattern.
    Url { pattern: String },
    /// Goes to the frame for which a JavaScript predicate holds.
    Find { predicate: String },
    /// Goes back to the main frame.
    Main,
}

/// Which frame to go to.
#[derive(Debug, PartialEq, Eq)]
pub enum FrameSelector {
    Name { value: String },
    Url { pattern: String },
    Predicate { js: String },
    Main,
}

impl FrameCommand {
    /// The frame that the command goes to.
    pub fn into_selector(self) -> (r: FrameSelector)
        ensures
            match self {
                FrameCommand::Switch { name } => r == (FrameSelector::Name { value: name }),
                FrameCommand::Url { pattern } => r == (FrameSelector::Url { pattern }),
                FrameCommand::Find { predicate } => r == (FrameSelector::Predicate {
                    js: predicate,
                }),
                FrameCommand::Main => r == FrameSelector::Main,
            },
    {
        match self {
            FrameCommand::Switch { name } => FrameSelector::Name { value: name },
            FrameCommand::Url { pattern } => FrameSelector::Url { pattern },
            FrameCommand::Find { predicate } => FrameSelector::Predicate { js: predicate },
            FrameCommand::Main => FrameSelector::Main,
        }
    }
}

/// Refuses a URL pattern that matches every frame: one that is blank, holding wildcards only.
pub fn check(command: &FrameCommand) -> (r: Result<(), WebPilotError>)
    ensures
        r is Err <==> (command matches FrameCommand::Url { pattern } && url_glob::blank(pattern@)),
        r is Err ==> r->Err_0@ == ErrorView::InvalidArgument(
            "frame url pattern must contain a non-wildcard character"@,
        ),
{
    match command {
        FrameCommand::Url { pattern } => if is_blank(pattern.as_str()) {
            Err(WebPilotError::invalid("frame url pattern must contain a non-wildcard character"))
        } else {
            Ok(())
        },
        _ => Ok(()),
    }
}

/// A frame, with the JSON that describes it.
#[derive(Debug, PartialEq, Eq)]
pub struct FrameInfo {
    pub frame_id: String,
    pub url: String,
    pub name: Option<String>,
    pub is_main: bool,
    pub wire: Json,
}

/// What a frame is.
pub struct FrameView {
    pub frame_id: Seq<char>,
    pub url: Seq<char>,
    pub name: Option<Seq<char>>,
    pub is_main: bool,
    pub wire: JsonView,
}

impl View for FrameInfo {
    type V = FrameView;

    open spec fn view(&self) -> FrameView {
        FrameView {
            frame_id: self.frame_id@,
            url: self.url@,
            name: model::maybe(self.name),
            is_main: self.is_main,
            wire: self.wire@,
        }
    }
}

/// Whether commands go to a frame: the active one, the main one where none is.
pub open spec fn is_active(f: FrameView, active: Option<Seq<char>>) -> bool {
    match active {
        Some(id) => id == f.frame_id,
        None => f.is_main,
    }
}

/// A frame's name, as a row shows it; nothing where it has none.
pub open spec fn name_suffix(name: Option<Seq<char>>) -> Seq<char> {
    match name {
        Some(n) => if n.len() == 0 {
            Seq::empty()
        } else {
            " name="@ + text::clipped(text::one_line(n), 200)
        },
        None => Seq::empty(),
    }
}

/// `* [id] url name=name [main]`.
pub open spec fn frame_row(f: FrameView, active: Option<Seq<char>>) -> Seq<char> {
    (if is_active(f, active) {
        "*"@
    } else {
        " "@
    }) + " ["@ + text::clipped(f.frame_id, 8) + "] "@ + text::clipped(text::one_line(f.url), 200)
        + name_suffix(f.name) + (if f.is_main {
        " [main]"@
    } else {
        Seq::empty()
    })
}

fn suffix(name: &Option<String>) -> (r: String)
    ensures
        r@ == name_suffix(model::maybe(*name)),
{
    match name {
        Some(n) => if n.as_str().is_empty() {
            String::new()
        } else {
            " name=".to_owned().concat(line_safe_clip(n.as_str(), 200).as_str())
        },
        None => String::new(),
    }
}

fn row(f: &FrameInfo, active: &Option<String>) -> (r: String)
    ensures
        r@ == frame_row(f@, model::maybe(*active)),
{
    let here = match active {
        Some(id) => same(id.as_str(), f.frame_id.as_str()),
        None => f.is_main,
    };
    let marker = if here {
        "*".to_owned()
    } else {
        " ".to_owned()
    };
    let main = if f.is_main {
        " [main]".to_owned()
    } else {
        String::new()
    };
    marker.concat(" [").concat(clip(f.frame_id.as_str(), 8).as_str()).concat("] ").concat(
        line_safe_clip(f.url.as_str(), 200).as_str(),
    ).concat(suffix(&f.name).as_str()).concat(main.as_str())
}

/// The response to a listing: the frames, and which one is active.
pub struct FramesData {
    pub frames: Vec<FrameInfo>,
    pub active_frame_id: Option<String>,
}

/// What a listing prints.
pub open spec fn frames_output(frames: Seq<FrameView>, active: Option<Seq<char>>) -> OutputView {
    OutputView::List(
        JsonView::object().with(
            "frames"@,
            JsonView::Array(Seq::new(frames.len(), |i: int| frames[i].wire)),
        ).with("active_frame_id"@, json::text_json(active)),
        Seq::new(frames.len(), |i: int| frame_row(frames[i], active)),
        match active {
            Some(id) => "("@ + text::decimal(frames.len()) + " frames, active="@ + text::clipped(
                id,
                8,
            ) + ")"@,
            None => "("@ + text::decimal(frames.len()) + " frames, active=main)"@,
        },
    )
}

/// What a listing prints.
pub fn list_frames(reply: Reply<FramesData>) -> (r: Result<CommandOutput, WebPilotError>)
    ensures
        error::outcome(r) == (match reply {
            Reply::Data(d) => Ok(
                frames_output(model::each(d.frames@), model::maybe(d.active_frame_id)),
            ),
            _ => Err(protocol::no_data(reply)),
        }),
{
    let d = match reply.data() {
        Ok(d) => d,
        Err(e) => {
            return Err(e);
        },
    };
    let frames = d.frames;
    let active = d.active_frame_id;
    let ghost all = model::each(frames@);
    let mut wires: Vec<Json> = Vec::new();
    let mut rows: Vec<String> = Vec::new();
    for i in 0..frames.len()
        invariant
            wires@.len() == i,
            rows@.len() == i,
            forall|j: int| 0 <= j < i ==> (#[trigger] wires@[j])@ == frames@[j].wire@,
            forall|j: int|
                0 <= j < i ==> (#[trigger] rows@[j])@ == frame_row(
                    frames@[j]@,
                    model::maybe(active),
                ),
    {
        wires.push(frames[i].wire.copy());
        rows.push(row(&frames[i], &active));
    }
    proof {
        json::lemma_views_index(wires@);
        text::lemma_texts_index(rows@);
        assert(json::views(wires@) =~= Seq::new(all.len(), |i: int| all[i].wire));
        assert(text::texts(rows@) =~= Seq::new(
            all.len(),
            |i: int| frame_row(all[i], model::maybe(active)),
        ));
    }
    let count = dec(frames.len() as u64);
    let summary = match &active {
        Some(id) => "(".to_owned().concat(count.as_str()).concat(" frames, active=").concat(
            clip(id.as_str(), 8).as_str(),
        ).concat(")"),
        None => "(".to_owned().concat(count.as_str()).concat(" frames, active=main)"),
    };
    let items = Json::object().with("frames", Json::Array(wires)).with(
        "active_frame_id",
        Json::optional(&active),
    );
    Ok(CommandOutput::List { items, human_lines: rows, summary })
}

/// The response to going to a frame.
pub struct SwitchData {
    pub success: bool,
    pub frame_id: Option<String>,
    pub name: Option<String>,
    pub url: Option<String>,
    pub error: Option<WebPilotError>,
}

/// A text, empty where there is none.
pub open spec fn or_empty(t: Option<Seq<char>>) -> Seq<char> {
    match t {
        Some(s) => s,
        None => Seq::empty(),
    }
}

/// What going to a frame prints.
pub open spec fn switch_outcome(reply: Reply<SwitchData>) -> Result<OutputView, ErrorView> {
    match reply {
        Reply::Data(d) => if d.success {
            let id = model::maybe(d.frame_id);
            let name = model::maybe(d.name);
            let url = model::maybe(d.url);
            Ok(
                OutputView::Data(
                    JsonView::object().with("success"@, JsonView::Bool(true)).with(
                        "frame_id"@,
                        json::text_json(id),
                    ).with("name"@, json::text_json(name)).with("url"@, json::text_json(url)),
                    "Switched to frame "@ + (match id {
                        Some(i) => i,
                        None => "main"@,
                    }) + " ("@ + text::clipped(text::one_line(or_empty(url)), 200) + ")"@
                        + name_suffix(name),
                ),
            )
        } else {
            Err(protocol::failure(model::maybe(d.error)))
        },
        _ => Err(protocol::no_data(reply)),
    }
}

/// What going to a frame prints.
pub fn switch_frame(reply: Reply<SwitchData>) -> (r: Result<CommandOutput, WebPilotError>)
    ensures
        error::outcome(r) == switch_outcome(reply),
{
    let d = match reply.data() {
        Ok(d) => d,
        Err(e) => {
            return Err(e);
        },
    };
    let json = Json::object().with("success", Json::Bool(true)).with(
        "frame_id",
        Json::optional(&d.frame_id),
    ).with("name", Json::optional(&d.name)).with("url", Json::optional(&d.url));
    let target = match &d.frame_id {
        Some(i) => i.clone(),
        None => "main".to_owned(),
    };
    let url = match &d.url {
        Some(u) => u.clone(),
        None => String::new(),
    };
    let human = "Switched to frame ".to_owned().concat(target.as_str()).concat(" (").concat(
        line_safe_clip(url.as_str(), 200).as_str(),
    ).concat(")").concat(suffix(&d.name).as_str());
    lift_error(d.success, d.error, CommandOutput::Data { json, human })
}

/// Exactly one kind of frame is marked: the active one, or the main one where none is active.
pub proof fn law_active_marker(f: FrameView, g: FrameView, active: Seq<char>)
    ensures
        is_active(f, Some(active)) && is_active(g, Some(active)) ==> f.frame_id == g.frame_id,
        is_active(f, None) <==> f.is_main,
{
}

/// A listing shows every frame in its order: its own description in JSON beside the id of the active
/// one, and a row each, the frame that commands go to marked.
pub proof fn law_frames_are_listed(d: FramesData, r: Result<CommandOutput, WebPilotError>)
    requires
        call_ensures(list_frames, (Reply::Data(d),), r),
    ensures
        r matches Ok(CommandOutput::List { items, human_lines, summary }) && {
            &&& items@.get("frames"@) matches Some(JsonView::Array(list)) && list.len()
                == d.frames@.len() && forall|i: int|
                0 <= i < list.len() ==> #[trigger] list[i] == d.frames@[i].wire@
            &&& items@.get("active_frame_id"@) == Some(
                if d.active_frame_id is Some {
                    JsonView::Str(d.active_frame_id->0@)
                } else {
                    JsonView::Null
                },
            )
            &&& human_lines@.len() == d.frames@.len()
            &&& forall|i: int|
                0 <= i < human_lines@.len() ==> {
                    let f = d.frames@[i];
                    let cut = |t: Seq<char>, n: nat|
                        if t.len() <= n {
                            t
                        } else {
                            t.take(n as int)
                        };
                    let here = if d.active_frame_id is Some {
                        d.active_frame_id->0@ == f.frame_id@
                    } else {
                        f.is_main
                    };
                    (#[trigger] human_lines@[i])@ == (if here {
                        "*"@
                    } else {
                        " "@
                    }) + " ["@ + cut(f.frame_id@, 8) + "] "@ + cut(text::one_line(f.url@), 200) + (
                    if f.name is Some && f.name->0@.len() > 0 {
                        " name="@ + cut(text::one_line(f.name->0@), 200)
                    } else {
                        Seq::empty()
                    }) + (if f.is_main {
                        " [main]"@
                    } else {
                        Seq::empty()
                    })
                }
        },
{
    reveal_strlit("frames");
    reveal_strlit("active_frame_id");
    assert("frames"@.len() == 6);
    assert("active_frame_id"@.len() == 15);
    if let Ok(CommandOutput::List { items, human_lines, summary }) = r {
        text::lemma_texts_index(human_lines@);
        assert forall|i: int| 0 <= i < human_lines@.len() implies (#[trigger] human_lines@[i])@
            == frame_row(d.frames@[i]@, model::maybe(d.active_frame_id)) by {
            assert(text::texts(human_lines@)[i] == frame_row(
                d.frames@[i]@,
                model::maybe(d.active_frame_id),
            ));
        }
    }
}

/// Going to a frame tells where it went, each thing under its own name, and only where it went; it
/// goes where the command says, by what the command says.
pub proof fn law_switches_are_told(
    reply: Reply<SwitchData>,
    r: Result<CommandOutput, WebPilotError>,
    command: FrameCommand,
    selector: FrameSelector,
)
    requires
        call_ensures(switch_frame, (reply,), r),
        call_ensures(FrameCommand::into_selector, (command,), selector),
    ensures
        r is Ok <==> (reply matches Reply::Data(d) && d.success),
        reply matches Reply::Data(d) ==> d.success ==> (r->Ok_0 matches CommandOutput::Data {
            json,
            human,
        } && {
            let told = |t: Option<String>|
                if t is Some {
                    Some(JsonView::Str(t->0@))
                } else {
                    Some(JsonView::Null)
                };
            &&& json@.get("success"@) == Some(JsonView::Bool(true))
            &&& json@.get("frame_id"@) == told(d.frame_id)
            &&& json@.get("name"@) == told(d.name)
            &&& json@.get("url"@) == told(d.url)
        }),
        reply matches Reply::Error(e) ==> r->Err_0@ == e@,
        reply matches Reply::Data(d) ==> (!d.success && d.error is Some ==> r->Err_0@
            == d.error->0@),
        command matches FrameCommand::Switch { name } ==> (selector matches FrameSelector::Name {
            value,
        } && value@ == name@),
        command matches FrameCommand::Url { pattern } ==> (selector matches FrameSelector::Url {
            pattern: p,
        } && p@ == pattern@),
        command matches FrameCommand::Find { predicate } ==> (
        selector matches FrameSelector::Predicate { js } && js@ == predicate@),
        command is Main ==> selector is Main,
{
    reveal_strlit("success");
    reveal_strlit("frame_id");
    reveal_strlit("name");
    reveal_strlit("url");
    assert("success"@.len() == 7);
    assert("frame_id"@.len() == 8);
    assert("name"@.len() == 4);
    assert("url"@.len() == 3);
}

/// The frame that is gone to is the one that the command tells, in the way that it tells it; a pattern
/// for an address must hold something besides stars.
pub proof fn law_commands_tell_their_frame(
    command: FrameCommand,
    r: FrameSelector,
    checked: Result<(), WebPilotError>,
)
    requires
        call_ensures(FrameCommand::into_selector, (command,), r),
        call_ensures(check, (&command,), checked),
    ensures
        match command {
            FrameCommand::Switch { name } => r matches FrameSelector::Name { value } && value == name,
            FrameCommand::Url { pattern } => r matches FrameSelector::Url { pattern: p } && p
                == pattern,
            FrameCommand::Find { predicate } => r matches FrameSelector::Predicate { js } && js
                == predicate,
            FrameCommand::Main => r is Main,
        },
        !(command is Url) ==> checked is Ok,
        command matches FrameCommand::Url { pattern } ==> (checked is Err <==> url_glob::blank(
            pattern@,
        )),
{
}

/// Listed frames are counted below, with the active one where there is one. Where no frame is named
/// that was gone to, it is the main one.
pub proof fn law_frames_are_counted(
    d: FramesData,
    r: Result<CommandOutput, WebPilotError>,
    to: SwitchData,
    gone: Result<CommandOutput, WebPilotError>,
)
    requires
        call_ensures(list_frames, (Reply::Data(d),), r),
        to.success,
        call_ensures(switch_frame, (Reply::Data(to),), gone),
    ensures
        r matches Ok(CommandOutput::List { items, human_lines, summary }) ==> text::has_prefix(
            summary@,
            "("@ + text::decimal(d.frames@.len()),
        ) && (d.active_frame_id matches Some(id) ==> text::holds(
            summary@,
            text::clipped(id@, 8),
        )),
        gone matches Ok(CommandOutput::Data { json, human }) && text::has_prefix(
            human@,
            "Switched to frame "@ + (match to.frame_id {
                Some(id) => id@,
                None => "main"@,
            }) + " ("@,
        ) && (to.url matches Some(u) ==> text::holds(
            human@,
            text::clipped(text::one_line(u@), 200),
        )),
{
    let n = text::decimal(d.frames@.len());
    if let Ok(CommandOutput::List { items, human_lines, summary }) = r {
        match d.active_frame_id {
            Some(id) => {
                let short = text::clipped(id@, 8);
                let rest = summary@.skip(("("@ + n).len() as int);
                assert(summary@ =~= ("("@ + n) + rest);
                text::lemma_front("("@ + n, rest);
                let front = "("@ + n + " frames, active="@;
                let end = summary@.skip((front + short).len() as int);
                assert(summary@ =~= front + short + end);
                text::lemma_part(front, short, end);
            },
            None => {
                let rest = summary@.skip(("("@ + n).len() as int);
                assert(summary@ =~= ("("@ + n) + rest);
                text::lemma_front("("@ + n, rest);
            },
        }
    }
    if let Ok(CommandOutput::Data { json, human }) = gone {
        let front = "Switched to frame "@ + (match to.frame_id {
            Some(id) => id@,
            None => "main"@,
        }) + " ("@;
        let url = text::clipped(text::one_line(or_empty(model::maybe(to.url))), 200);
        let end = ")"@ + name_suffix(model::maybe(to.name));
        assert(human@ =~= front + url + end);
        text::lemma_part(front, url, end);
        assert(human@ =~= front + (url + end));
        text::lemma_front(front, url + end);
    }
}

} // verus!
