//! `status`: whether the browser is there, and what is wrong where it is not.
use crate::commands::setup::nm_host;
use crate::error;
use crate::error::WebPilotError;
use crate::json;
use crate::json::{Json, JsonView};
use crate::model;
use crate::output::{CommandOutput, OutputView};
use crate::protocol;
use crate::protocol::Reply;
use crate::text;
use crate::text::{line_safe, line_safe_clip, same, starts_with};
use vstd::prelude::*;
use vstd::string::StringExecFns;

verus! {

broadcast use json::group_json_views;

/// How commands reach the browser.
#[derive(Debug, Clone, Copy, PartialEq, Eq, Structural)]
pub enum RunMode {
    Headless,
    Browser,
}

/// The name of a mode.
pub open spec fn mode_name(mode: RunMode) -> Seq<char> {
    match mode {
        RunMode::Headless => "headless"@,
        RunMode::Browser => "browser"@,
    }
}

/// What the browser's side says of itself.
pub struct Status {
    pub connected: bool,
    pub mode: RunMode,
    pub tab_url: Option<String>,
    pub tab_title: Option<String>,
    pub chrome_version: Option<String>,
    pub extension_version: Option<String>,
}

/// A line of the report, where there is something to report.
pub open spec fn line(label: Seq<char>, value: Option<Seq<char>>) -> Seq<char> {
    match value {
        Some(v) => label + v,
        None => Seq::empty(),
    }
}

/// The text on one line, where there is one.
pub open spec fn on_one_line(value: Option<Seq<char>>) -> Option<Seq<char>> {
    match value {
        Some(v) => Some(text::one_line(v)),
        None => None,
    }
}

/// The text on one line that is not too long, where there is one.
pub open spec fn on_one_short_line(value: Option<Seq<char>>) -> Option<Seq<char>> {
    match value {
        Some(v) => Some(text::clipped(text::one_line(v), 200)),
        None => None,
    }
}

/// What `status` prints.
pub open spec fn shown(s: Status, context: Option<Seq<char>>) -> OutputView {
    OutputView::Data(
        JsonView::object().with("connected"@, JsonView::Bool(s.connected)).with(
            "mode"@,
            JsonView::Str(mode_name(s.mode)),
        ).with("tab_url"@, json::text_json(model::maybe(s.tab_url))).with(
            "tab_title"@,
            json::text_json(model::maybe(s.tab_title)),
        ).with("chrome_version"@, json::text_json(model::maybe(s.chrome_version))).with(
            "extension_version"@,
            json::text_json(model::maybe(s.extension_version)),
        ).with("context"@, json::text_json(context)),
        "Mode: "@ + mode_name(s.mode) + "\nConnected: "@ + (if s.connected {
            "true"@
        } else {
            "false"@
        }) + line("\nContext: "@, on_one_line(context)) + line(
            "\nChrome: "@,
            model::maybe(s.chrome_version),
        ) + line("\nExtension: v"@, model::maybe(s.extension_version)) + line(
            "\nTab: "@,
            on_one_short_line(model::maybe(s.tab_title)),
        ) + line("\nURL: "@, on_one_short_line(model::maybe(s.tab_url))),
    )
}

fn line_of(label: &str, value: Option<String>) -> (r: String)
    ensures
        r@ == line(label@, model::maybe(value)),
{
    match value {
        Some(v) => label.to_owned().concat(v.as_str()),
        None => String::new(),
    }
}

fn str_of(t: &Option<String>) -> (r: Option<&str>)
    ensures
        model::maybe(r) == model::maybe(*t),
{
    match t {
        Some(s) => Some(s.as_str()),
        None => None,
    }
}

/// What `status` prints. A page names its own title and address: on the lines of the report they
/// stand on one line each, cut short.
pub fn render(s: Status, context: Option<&str>) -> (r: CommandOutput)
    ensures
        r@ == shown(s, model::maybe(context)),
{
    let mode = match s.mode {
        RunMode::Headless => "headless",
        RunMode::Browser => "browser",
    };
    let connected = if s.connected {
        "true"
    } else {
        "false"
    };
    let json = Json::object().with("connected", Json::Bool(s.connected)).with(
        "mode",
        Json::string(mode),
    ).with("tab_url", Json::text_or_null(str_of(&s.tab_url))).with(
        "tab_title",
        Json::text_or_null(str_of(&s.tab_title)),
    ).with("chrome_version", Json::text_or_null(str_of(&s.chrome_version))).with(
        "extension_version",
        Json::text_or_null(str_of(&s.extension_version)),
    ).with("context", Json::text_or_null(context));
    let name = match context {
        Some(c) => Some(line_safe(c)),
        None => None,
    };
    let title = match &s.tab_title {
        Some(t) => Some(line_safe_clip(t.as_str(), 200)),
        None => None,
    };
    let url = match &s.tab_url {
        Some(u) => Some(line_safe_clip(u.as_str(), 200)),
        None => None,
    };
    let human = "Mode: ".to_owned().concat(mode).concat("\nConnected: ").concat(connected).concat(
        line_of("\nContext: ", name).as_str(),
    ).concat(line_of("\nChrome: ", s.chrome_version).as_str()).concat(
        line_of("\nExtension: v", s.extension_version).as_str(),
    ).concat(line_of("\nTab: ", title).as_str()).concat(line_of("\nURL: ", url).as_str());
    CommandOutput::Data { json, human }
}

/// What `status` prints where there is no browser at all.
pub fn no_session(context: Option<&str>) -> (r: CommandOutput)
    ensures
        r@ == shown(
            (Status {
                connected: false,
                mode: RunMode::Headless,
                tab_url: None,
                tab_title: None,
                chrome_version: None,
                extension_version: None,
            }),
            model::maybe(context),
        ),
{
    render(
        Status {
            connected: false,
            mode: RunMode::Headless,
            tab_url: None,
            tab_title: None,
            chrome_version: None,
            extension_version: None,
        },
        context,
    )
}

/// What the answer to `status` comes to.
pub fn run(reply: Reply<Status>, context: Option<&str>) -> (r: Result<CommandOutput, WebPilotError>)
    ensures
        error::outcome(r) == (match reply {
            Reply::Data(s) => Ok(shown(s, model::maybe(context))),
            _ => Err(protocol::no_data(reply)),
        }),
{
    match reply.data() {
        Ok(s) => Ok(render(s, context)),
        Err(e) => Err(e),
    }
}

/// What is found where a manifest should be.
#[derive(Debug, PartialEq, Eq)]
pub enum ManifestState {
    /// Nothing.
    NotFound,
    /// No JSON, or no manifest that a browser could start the host by.
    Malformed,
    /// A manifest that names a program that cannot be started.
    BinaryMissing(String),
    /// A manifest that lets another extension connect.
    IdMismatch,
    /// A manifest as it should be.
    Healthy,
}

/// What a state is.
pub enum StateView {
    NotFound,
    Malformed,
    BinaryMissing(Seq<char>),
    IdMismatch,
    Healthy,
}

impl View for ManifestState {
    type V = StateView;

    open spec fn view(&self) -> StateView {
        match self {
            ManifestState::NotFound => StateView::NotFound,
            ManifestState::Malformed => StateView::Malformed,
            ManifestState::BinaryMissing(p) => StateView::BinaryMissing(p@),
            ManifestState::IdMismatch => StateView::IdMismatch,
            ManifestState::Healthy => StateView::Healthy,
        }
    }
}

/// Whether a manifest lets an extension connect.
pub open spec fn authorises(manifest: JsonView, id: Seq<char>) -> bool {
    match manifest.get("allowed_origins"@) {
        Some(JsonView::Array(origins)) => exists|i: int|
            0 <= i < origins.len() && #[trigger] origins[i] == JsonView::Str(nm_host::origin(id)),
        _ => false,
    }
}

/// Whether a manifest names the host, how to talk to it, and an absolute path.
pub open spec fn is_complete(manifest: JsonView) -> bool {
    &&& manifest.get_str("name"@) == Some(nm_host::NM_HOST_NAME@)
    &&& manifest.get_str("type"@) == Some(nm_host::NM_HOST_TYPE@)
    &&& match manifest.get_str("path"@) {
        Some(p) => text::has_prefix(p, "/"@),
        None => false,
    }
}

/// What a manifest is worth.
pub open spec fn judged(manifest: JsonView, launchable: bool, id: Seq<char>) -> StateView {
    if !is_complete(manifest) {
        StateView::Malformed
    } else if !launchable {
        StateView::BinaryMissing(manifest.get_str("path"@)->0)
    } else if !authorises(manifest, id) {
        StateView::IdMismatch
    } else {
        StateView::Healthy
    }
}

fn has_text(found: Option<&str>, wanted: &str) -> (r: bool)
    ensures
        r == (model::maybe(found) == Some(wanted@)),
{
    match found {
        Some(f) => same(f, wanted),
        None => false,
    }
}

fn lets_in(manifest: &Json, id: &str) -> (r: bool)
    ensures
        r == authorises(manifest@, id@),
{
    let origin = "chrome-extension://".to_owned().concat(id).concat("/");
    match manifest.get("allowed_origins") {
        Some(Json::Array(origins)) => {
            proof {
                json::lemma_views_index(origins@);
                json::lemma_array_view(*origins);
            }
            for i in 0..origins.len()
                invariant
                    origin@ == nm_host::origin(id@),
                    json::views(origins@).len() == origins@.len(),
                    forall|j: int|
                        0 <= j < origins@.len() ==> (#[trigger] json::views(origins@)[j])
                            == origins@[j]@,
                    forall|j: int|
                        0 <= j < i ==> #[trigger] json::views(origins@)[j] != JsonView::Str(
                            nm_host::origin(id@),
                        ),
                    manifest@.get("allowed_origins"@) == Some(
                        JsonView::Array(json::views(origins@)),
                    ),
            {
                let found = origins[i].as_str();
                assert(json::views(origins@)[i as int] == origins@[i as int]@);
                if let Some(o) = found {
                    if same(o, origin.as_str()) {
                        return true;
                    }
                }
            }
            false
        },
        _ => false,
    }
}

/// What a manifest is worth. `launchable` tells of the path that it names whether a program stands
/// there that can be started.
pub fn judge(manifest: &Json, launchable: bool, id: &str) -> (r: ManifestState)
    ensures
        r@ == judged(manifest@, launchable, id@),
{
    if !has_text(manifest.get_str("name"), nm_host::NM_HOST_NAME) || !has_text(
        manifest.get_str("type"),
        nm_host::NM_HOST_TYPE,
    ) {
        return ManifestState::Malformed;
    }
    match manifest.get_str("path") {
        Some(path) => {
            if !starts_with(path, "/") {
                return ManifestState::Malformed;
            }
            if !launchable {
                return ManifestState::BinaryMissing(path.to_owned());
            }
        },
        None => {
            return ManifestState::Malformed;
        },
    }
    if !lets_in(manifest, id) {
        return ManifestState::IdMismatch;
    }
    ManifestState::Healthy
}

/// What the text of a manifest is worth.
pub open spec fn evaluated(content: Seq<char>, launchable: bool, id: Seq<char>) -> StateView {
    match json::parsed_json(content) {
        Ok(manifest) => judged(manifest, launchable, id),
        Err(_) => StateView::Malformed,
    }
}

/// What the file at a manifest's path is worth; nothing where there is none that can be read.
pub fn evaluate_manifest(content: Option<&str>, launchable: bool, id: &str) -> (r: Option<
    ManifestState,
>)
    ensures
        model::maybe(r) == (match content {
            Some(c) => Some(evaluated(c@, launchable, id@)),
            None => None,
        }),
{
    match content {
        Some(c) => {
            match Json::parse(c) {
                Ok(manifest) => Some(judge(&manifest, launchable, id)),
                Err(_) => Some(ManifestState::Malformed),
            }
        },
        None => None,
    }
}

/// The program that a manifest names, which is to be looked at before the manifest is judged.
pub fn manifest_program(content: &str) -> (r: Option<String>)
    ensures
        model::maybe(r) == (match json::parsed_json(content@) {
            Ok(manifest) => manifest.get_str("path"@),
            Err(_) => None,
        }),
{
    match Json::parse(content) {
        Ok(manifest) => match manifest.get_str("path") {
            Some(p) => Some(p.to_owned()),
            None => None,
        },
        Err(_) => None,
    }
}

/// How much a state tells of what is to be done.
pub open spec fn rank(s: StateView) -> int {
    match s {
        StateView::Healthy => 4,
        StateView::BinaryMissing(_) => 3,
        StateView::IdMismatch => 2,
        StateView::Malformed => 1,
        StateView::NotFound => 0,
    }
}

/// The state that tells most, the last of those that tell as much.
pub open spec fn telling(states: Seq<StateView>) -> StateView
    decreases states.len(),
{
    if states.len() == 0 {
        StateView::NotFound
    } else {
        let before = telling(states.drop_last());
        if rank(before) <= rank(states.last()) {
            states.last()
        } else {
            before
        }
    }
}

fn rank_of(s: &ManifestState) -> (r: u8)
    ensures
        r == rank(s@),
{
    match s {
        ManifestState::Healthy => 4,
        ManifestState::BinaryMissing(_) => 3,
        ManifestState::IdMismatch => 2,
        ManifestState::Malformed => 1,
        ManifestState::NotFound => 0,
    }
}

/// What the manifests that there are come to: the state that tells most.
pub fn check_nm_manifest(states: Vec<ManifestState>) -> (r: ManifestState)
    ensures
        r@ == telling(model::each(states@)),
{
    if states.len() == 0 {
        return ManifestState::NotFound;
    }
    let ghost all = model::each(states@);
    let mut best: usize = 0;
    assert(all.take(1).drop_last() =~= Seq::empty());
    assert(all.take(1).last() == states@[0]@);
    assert(telling(all.take(1).drop_last()) is NotFound);
    for i in 1..states.len()
        invariant
            all == model::each(states@),
            best < states@.len(),
            telling(all.take(i as int)) == states@[best as int]@,
    {
        assert(all.take(i + 1).drop_last() =~= all.take(i as int));
        assert(all.take(i + 1).last() == states@[i as int]@);
        if rank_of(&states[best]) <= rank_of(&states[i]) {
            best = i;
        }
    }
    assert(all.take(states@.len() as int) =~= all);
    let mut states = states;
    states.remove(best)
}

/// Why the host did not answer.
pub enum IpcError {
    HostNotRunning(String),
    Timeout,
    ConnectionClosed,
    Io(String),
    Json(String),
}

/// What to do about a manifest.
pub open spec fn manifest_hint(state: StateView, id: Seq<char>) -> Seq<char> {
    match state {
        StateView::NotFound => "  NM manifest not found.\n  Run: webpilot setup nm-host"@,
        StateView::Malformed =>
            "  NM manifest is malformed.\n  Re-register with: webpilot setup nm-host"@,
        StateView::BinaryMissing(p) => "  NM manifest binary not found: "@ + p
            + "\n  Re-register with: webpilot setup nm-host"@,
        StateView::IdMismatch =>
            "  NM manifest authorises a different extension id than this build (expected "@ + id
            + ").\n  Re-register with: webpilot setup nm-host"@,
        StateView::Healthy =>
            "  NM manifest OK. Ensure the extension is loaded and active in your browser."@,
    }
}

fn hint_of(state: ManifestState, id: &str) -> (r: String)
    ensures
        r@ == manifest_hint(state@, id@),
{
    match state {
        ManifestState::NotFound =>
            "  NM manifest not found.\n  Run: webpilot setup nm-host".to_owned(),
        ManifestState::Malformed =>
            "  NM manifest is malformed.\n  Re-register with: webpilot setup nm-host".to_owned(),
        ManifestState::BinaryMissing(p) => "  NM manifest binary not found: ".to_owned().concat(
            p.as_str(),
        ).concat("\n  Re-register with: webpilot setup nm-host"),
        ManifestState::IdMismatch =>
            "  NM manifest authorises a different extension id than this build (expected ".to_owned().concat(
        id).concat(").\n  Re-register with: webpilot setup nm-host"),
        ManifestState::Healthy =>
            "  NM manifest OK. Ensure the extension is loaded and active in your browser.".to_owned(),
    }
}

/// What went wrong, and what to do about it.
pub open spec fn diagnosis(error: IpcError, state: StateView, id: Seq<char>) -> (
    Seq<char>,
    Seq<char>,
) {
    match error {
        IpcError::HostNotRunning(path) => (
            "Host not running (socket: "@ + path@ + ")"@,
            manifest_hint(state, id),
        ),
        IpcError::Timeout => (
            "Timed out waiting for host response."@,
            "  The NM host may be stuck. Reload the extension in your browser."@,
        ),
        IpcError::ConnectionClosed => (
            "Host closed the connection."@,
            "  The NM host may have crashed. Reload the extension in your browser."@,
        ),
        IpcError::Io(e) => (
            "Socket error: "@ + e@,
            "  Check that the NM host is running and the socket is accessible."@,
        ),
        IpcError::Json(e) => (
            "Invalid response from host: "@ + e@,
            "  The NM host sent malformed data. Try reloading the extension."@,
        ),
    }
}

/// What `status` prints where the host does not answer: no error, but what went wrong.
pub fn diagnose(error: IpcError, state: ManifestState, id: &str) -> (r: CommandOutput)
    ensures
        r@ == ({
            let d = diagnosis(error, state@, id@);
            OutputView::Data(
                JsonView::object().with("connected"@, JsonView::Bool(false)).with(
                    "mode"@,
                    JsonView::Str("browser"@),
                ).with("error"@, JsonView::Str(d.0)),
                d.0 + "\n"@ + d.1,
            )
        }),
{
    let (msg, hint) = match error {
        IpcError::HostNotRunning(path) => (
            "Host not running (socket: ".to_owned().concat(path.as_str()).concat(")"),
            hint_of(state, id),
        ),
        IpcError::Timeout => (
            "Timed out waiting for host response.".to_owned(),
            "  The NM host may be stuck. Reload the extension in your browser.".to_owned(),
        ),
        IpcError::ConnectionClosed => (
            "Host closed the connection.".to_owned(),
            "  The NM host may have crashed. Reload the extension in your browser.".to_owned(),
        ),
        IpcError::Io(e) => (
            "Socket error: ".to_owned().concat(e.as_str()),
            "  Check that the NM host is running and the socket is accessible.".to_owned(),
        ),
        IpcError::Json(e) => (
            "Invalid response from host: ".to_owned().concat(e.as_str()),
            "  The NM host sent malformed data. Try reloading the extension.".to_owned(),
        ),
    };
    CommandOutput::Data {
        json: Json::object().with("connected", Json::Bool(false)).with(
            "mode",
            Json::string("browser"),
        ).with("error", Json::string(msg.as_str())),
        human: msg.concat("\n").concat(hint.as_str()),
    }
}

/// One manifest as it should be is enough, wherever it stands among the others.
pub proof fn law_one_healthy_manifest_is_enough(states: Seq<StateView>)
    requires
        exists|i: int| 0 <= i < states.len() && #[trigger] states[i] is Healthy,
    ensures
        telling(states) is Healthy,
    decreases states.len(),
{
    let i = choose|i: int| 0 <= i < states.len() && #[trigger] states[i] is Healthy;
    let front = states.drop_last();
    if i == states.len() - 1 {
        lemma_rank(telling(front));
    } else {
        assert(front[i] is Healthy);
        law_one_healthy_manifest_is_enough(front);
        lemma_rank(states.last());
    }
}

proof fn lemma_rank(s: StateView)
    ensures
        rank(s) <= 4,
        rank(s) == 4 <==> s is Healthy,
{
}

/// What is reported is among what was found, and nothing found tells more; only where nothing was
/// found is nothing reported.
pub proof fn law_the_most_telling_state_is_reported(states: Seq<StateView>)
    ensures
        states.len() == 0 ==> telling(states) is NotFound,
        states.len() > 0 ==> states.contains(telling(states)),
        forall|i: int| 0 <= i < states.len() ==> rank(#[trigger] states[i]) <= rank(telling(states)),
    decreases states.len(),
{
    if states.len() > 0 {
        let front = states.drop_last();
        law_the_most_telling_state_is_reported(front);
        assert(states.last() == states[states.len() - 1]);
        if rank(telling(front)) > rank(states.last()) {
            let k = choose|k: int| 0 <= k < front.len() && front[k] == telling(front);
            assert(states[k] == telling(front));
        }
        assert forall|i: int| 0 <= i < states.len() implies rank(#[trigger] states[i]) <= rank(
            telling(states),
        ) by {
            if i < front.len() {
                assert(front[i] == states[i]);
            }
        }
    }
}

/// The manifest that is written on registering is as it should be, for the extension it was
/// written for and a program that can be started.
pub proof fn law_registered_is_healthy(id: Seq<char>, binary: Seq<char>)
    requires
        text::has_prefix(binary, "/"@),
    ensures
        judged(nm_host::manifest_json(id, binary), true, id) is Healthy,
{
    reveal_strlit("name");
    reveal_strlit("type");
    reveal_strlit("path");
    reveal_strlit("description");
    reveal_strlit("allowed_origins");
    let m = nm_host::manifest_json(id, binary);
    assert("name"@.len() == 4 && "type"@.len() == 4 && "path"@.len() == 4);
    assert("description"@.len() == 11 && "allowed_origins"@.len() == 15);
    assert("name"@[0] == 'n' && "type"@[0] == 't' && "path"@[0] == 'p');
    assert(m.get_str("name"@) == Some(nm_host::NM_HOST_NAME@));
    assert(m.get_str("type"@) == Some(nm_host::NM_HOST_TYPE@));
    assert(m.get_str("path"@) == Some(binary));
    let origins = JsonView::array().item(JsonView::Str(nm_host::origin(id)));
    assert(m.get("allowed_origins"@) == Some(origins));
    assert(origins->Array_0[0] == JsonView::Str(nm_host::origin(id)));
}

/// What `status` prints tells, each under its name, what the browser's side said of itself and the
/// context; what it did not say is null, and has no line.
pub proof fn law_status_is_shown(s: Status, context: Option<&str>, r: Result<CommandOutput, WebPilotError>)
    requires
        call_ensures(run, (Reply::Data(s), context), r),
    ensures
        r matches Ok(CommandOutput::Data { json, human }) && {
            let said = |v: Option<String>|
                Some(
                    match v {
                        Some(t) => JsonView::Str(t@),
                        None => JsonView::Null,
                    },
                );
            &&& json@.get("connected"@) == Some(JsonView::Bool(s.connected))
            &&& json@.get("mode"@) == Some(
                JsonView::Str(
                    if s.mode is Headless {
                        "headless"@
                    } else {
                        "browser"@
                    },
                ),
            )
            &&& json@.get("tab_url"@) == said(s.tab_url)
            &&& json@.get("tab_title"@) == said(s.tab_title)
            &&& json@.get("chrome_version"@) == said(s.chrome_version)
            &&& json@.get("extension_version"@) == said(s.extension_version)
            &&& json@.get("context"@) == Some(
                match context {
                    Some(c) => JsonView::Str(c@),
                    None => JsonView::Null,
                },
            )
            &&& text::has_prefix(
                human@,
                "Mode: "@ + (if s.mode is Headless {
                    "headless"@
                } else {
                    "browser"@
                }) + "\nConnected: "@ + (if s.connected {
                    "true"@
                } else {
                    "false"@
                }),
            )
            &&& context matches Some(c) ==> text::holds(
                human@,
                "\nContext: "@ + text::one_line(c@),
            )
            &&& s.chrome_version matches Some(v) ==> text::holds(human@, "\nChrome: "@ + v@)
            &&& s.extension_version matches Some(v) ==> text::holds(human@, "\nExtension: v"@ + v@)
            &&& s.tab_title matches Some(t) ==> text::holds(
                human@,
                "\nTab: "@ + text::clipped(text::one_line(t@), 200),
            )
            &&& s.tab_url matches Some(u) ==> text::holds(
                human@,
                "\nURL: "@ + text::clipped(text::one_line(u@), 200),
            )
        },
{
    reveal_strlit("connected");
    reveal_strlit("mode");
    reveal_strlit("tab_url");
    reveal_strlit("tab_title");
    reveal_strlit("chrome_version");
    reveal_strlit("extension_version");
    reveal_strlit("context");
    assert("connected"@.len() == 9);
    assert("mode"@.len() == 4);
    assert("tab_url"@.len() == 7);
    assert("tab_title"@.len() == 9);
    assert("chrome_version"@.len() == 14);
    assert("extension_version"@.len() == 17);
    assert("context"@.len() == 7);
    assert("connected"@[0] != "tab_title"@[0]);
    assert("tab_url"@[0] != "context"@[0]);
    if let Ok(CommandOutput::Data { json, human }) = r {
        let front = "Mode: "@ + mode_name(s.mode) + "\nConnected: "@ + (if s.connected {
            "true"@
        } else {
            "false"@
        });
        let a = line("\nContext: "@, on_one_line(model::maybe(context)));
        let b = line("\nChrome: "@, model::maybe(s.chrome_version));
        let c = line("\nExtension: v"@, model::maybe(s.extension_version));
        let d = line("\nTab: "@, on_one_short_line(model::maybe(s.tab_title)));
        let e = line("\nURL: "@, on_one_short_line(model::maybe(s.tab_url)));
        lemma_lines_stand(front, a, b, c, d, e);
    }
}

proof fn lemma_lines_stand(
    front: Seq<char>,
    a: Seq<char>,
    b: Seq<char>,
    c: Seq<char>,
    d: Seq<char>,
    e: Seq<char>,
)
    ensures
        ({
            let all = front + a + b + c + d + e;
            &&& text::has_prefix(all, front)
            &&& text::holds(all, a)
            &&& text::holds(all, b)
            &&& text::holds(all, c)
            &&& text::holds(all, d)
            &&& text::holds(all, e)
        }),
{
    let all = front + a + b + c + d + e;
    assert(all =~= front + (a + b + c + d + e));
    text::lemma_front(front, a + b + c + d + e);
    assert(all =~= front + a + (b + c + d + e));
    text::lemma_part(front, a, b + c + d + e);
    assert(all =~= (front + a) + b + (c + d + e));
    text::lemma_part(front + a, b, c + d + e);
    assert(all =~= (front + a + b) + c + (d + e));
    text::lemma_part(front + a + b, c, d + e);
    text::lemma_part(front + a + b + c, d, e);
    assert(all =~= (front + a + b + c + d) + e + Seq::<char>::empty());
    text::lemma_part(front + a + b + c + d, e, Seq::empty());
}

/// Without a browser nothing is connected, and there is no page to tell of.
pub proof fn law_no_browser_is_told(context: Option<&str>, r: CommandOutput)
    requires
        call_ensures(no_session, (context,), r),
    ensures
        r matches CommandOutput::Data { json, human } && {
            &&& json@.get("connected"@) == Some(JsonView::Bool(false))
            &&& json@.get("mode"@) == Some(JsonView::Str("headless"@))
            &&& json@.get("tab_url"@) == Some(JsonView::Null)
            &&& json@.get("chrome_version"@) == Some(JsonView::Null)
            &&& json@.get("context"@) == Some(
                match context {
                    Some(c) => JsonView::Str(c@),
                    None => JsonView::Null,
                },
            )
        },
{
    reveal_strlit("connected");
    reveal_strlit("mode");
    reveal_strlit("tab_url");
    reveal_strlit("tab_title");
    reveal_strlit("chrome_version");
    reveal_strlit("extension_version");
    reveal_strlit("context");
    assert("connected"@.len() == 9);
    assert("mode"@.len() == 4);
    assert("tab_url"@.len() == 7);
    assert("tab_title"@.len() == 9);
    assert("chrome_version"@.len() == 14);
    assert("extension_version"@.len() == 17);
    assert("context"@.len() == 7);
    assert("connected"@[0] != "tab_title"@[0]);
    assert("tab_url"@[0] != "context"@[0]);
}

/// A manifest is as it should be exactly where it names the host, how to talk to it and an absolute
/// path, a program can be started there, and the extension is among those it lets connect. What is
/// wrong first is told first: the manifest itself, the program, the extension.
pub proof fn law_manifests_are_judged(manifest: Json, launchable: bool, id: &str, r: ManifestState)
    requires
        call_ensures(judge, (&manifest, launchable, id), r),
    ensures
        ({
            let m = manifest@;
            let complete = {
                &&& m.get("name"@) == Some(JsonView::Str("com.webpilot.host"@))
                &&& m.get("type"@) == Some(JsonView::Str("stdio"@))
                &&& m.get("path"@) matches Some(JsonView::Str(p)) && p.len() > 0 && p[0] == '/'
            };
            let lets_it_in = m.get("allowed_origins"@) matches Some(JsonView::Array(list)) && exists|i: int|
                0 <= i < list.len() && #[trigger] list[i] == JsonView::Str(
                    "chrome-extension://"@ + id@ + "/"@,
                );
            &&& r is Malformed <==> !complete
            &&& r is BinaryMissing <==> complete && !launchable
            &&& r matches ManifestState::BinaryMissing(p) ==> m.get("path"@) == Some(
                JsonView::Str(p@),
            )
            &&& r is IdMismatch <==> complete && launchable && !lets_it_in
            &&& r is Healthy <==> complete && launchable && lets_it_in
        }),
{
    reveal_strlit("/");
    assert("/"@ =~= seq!['/']);
    if let Some(JsonView::Str(p)) = manifest@.get("path"@) {
        if p.len() > 0 {
            assert(p.take(1) =~= seq![p[0]]);
            assert(seq![p[0]] == "/"@ ==> p[0] == '/') by {
                assert(seq![p[0]][0] == p[0]);
            }
        }
    }
}

/// No file is no manifest; a file that is no JSON is malformed, and one that is JSON is worth what its
/// value is worth. The program to look at is the one that its path names.
pub proof fn law_manifest_files_are_judged(
    content: &str,
    launchable: bool,
    id: &str,
    r: Option<ManifestState>,
    none: Option<ManifestState>,
    program: Option<String>,
)
    requires
        call_ensures(evaluate_manifest, (Some(content), launchable, id), r),
        call_ensures(evaluate_manifest, (None, launchable, id), none),
        call_ensures(manifest_program, (content,), program),
    ensures
        none is None,
        r is Some,
        match json::parsed_json(content@) {
            Ok(m) => {
                &&& r->0 is Healthy ==> launchable && m.get("name"@) == Some(
                    JsonView::Str("com.webpilot.host"@),
                )
                &&& program matches Some(p) ==> m.get("path"@) == Some(JsonView::Str(p@))
                &&& m.get("path"@) matches Some(JsonView::Str(_)) ==> program is Some
                &&& forall|value: Json, judged: ManifestState|
                    value@ == m && #[trigger] call_ensures(judge, (&value, launchable, id), judged)
                        ==> judged@ == r->0@
            },
            Err(_) => r->0 is Malformed && program is None,
        },
{
}

/// Of several manifests the one that tells most is reported: one as it should be, else one whose
/// program is missing, else one for another extension, else one that is malformed.
pub proof fn law_the_best_manifest_counts(states: Vec<ManifestState>, r: ManifestState)
    requires
        call_ensures(check_nm_manifest, (states,), r),
    ensures
        states@.len() == 0 ==> r is NotFound,
        states@.len() > 0 ==> exists|i: int| 0 <= i < states@.len() && #[trigger] states@[i]@ == r@,
        forall|i: int| 0 <= i < states@.len() && #[trigger] states@[i] is Healthy ==> r is Healthy,
        forall|i: int|
            0 <= i < states@.len() && #[trigger] states@[i] is BinaryMissing ==> r is Healthy || r
                is BinaryMissing,
        forall|i: int|
            0 <= i < states@.len() && #[trigger] states@[i] is IdMismatch ==> !(r is Malformed) && !(
            r is NotFound),
        forall|i: int|
            0 <= i < states@.len() && #[trigger] states@[i] is Malformed ==> !(r is NotFound),
{
    let all = model::each(states@);
    law_the_most_telling_state_is_reported(all);
    if states@.len() > 0 {
        let k = choose|k: int| 0 <= k < all.len() && all[k] == telling(all);
        assert(states@[k]@ == r@);
    }
    assert forall|i: int| #![trigger states@[i]] 0 <= i < states@.len() implies rank(states@[i]@)
        <= rank(r@) by {
        assert(all[i] == states@[i]@);
    }
}

/// Where the host does not answer, nothing is connected, and what went wrong is told: as the error,
/// and in words with what to do about it. A missing host is explained by the state of its manifest.
pub proof fn law_silence_is_explained(error: IpcError, state: ManifestState, id: &str, r: CommandOutput)
    requires
        call_ensures(diagnose, (error, state, id), r),
    ensures
        r matches CommandOutput::Data { json, human } && {
            &&& json@.get("connected"@) == Some(JsonView::Bool(false))
            &&& json@.get("mode"@) == Some(JsonView::Str("browser"@))
            &&& json@.get("error"@) matches Some(JsonView::Str(m)) && {
                &&& text::has_prefix(human@, m + "\n"@)
                &&& error matches IpcError::HostNotRunning(p) ==> text::holds(m, p@)
                &&& error matches IpcError::Io(e) ==> text::has_suffix(m, e@)
                &&& error matches IpcError::Json(e) ==> text::has_suffix(m, e@)
            }
            &&& error is HostNotRunning ==> {
                &&& state matches ManifestState::BinaryMissing(p) ==> text::holds(human@, p@)
                &&& state is IdMismatch ==> text::holds(human@, id@)
                &&& state is NotFound ==> text::has_suffix(
                    human@,
                    "\n"@ + "  NM manifest not found.\n  Run: webpilot setup nm-host"@,
                )
            }
        },
{
    reveal_strlit("connected");
    reveal_strlit("mode");
    reveal_strlit("error");
    assert("connected"@.len() == 9);
    assert("mode"@.len() == 4);
    assert("error"@.len() == 5);
    if let CommandOutput::Data { json, human } = r {
        let d = diagnosis(error, state@, id@);
        assert(human@ =~= (d.0 + "\n"@) + d.1);
        text::lemma_front(d.0 + "\n"@, d.1);
        if let IpcError::Io(e) = error {
            text::lemma_back("Socket error: "@, e@);
        }
        if let IpcError::Json(e) = error {
            text::lemma_back("Invalid response from host: "@, e@);
        }
        if let IpcError::HostNotRunning(path) = error {
            text::lemma_part("Host not running (socket: "@, path@, ")"@);
            if let ManifestState::BinaryMissing(p) = state {
                let head = "  NM manifest binary not found: "@;
                let end = "\n  Re-register with: webpilot setup nm-host"@;
                assert(human@ =~= (d.0 + "\n"@ + head) + p@ + end);
                text::lemma_part(d.0 + "\n"@ + head, p@, end);
            }
            if state is IdMismatch {
                let head =
                    "  NM manifest authorises a different extension id than this build (expected "@;
                let end = ").\n  Re-register with: webpilot setup nm-host"@;
                assert(human@ =~= (d.0 + "\n"@ + head) + id@ + end);
                text::lemma_part(d.0 + "\n"@ + head, id@, end);
            }
            if state is NotFound {
                let end = "  NM manifest not found.\n  Run: webpilot setup nm-host"@;
                assert(human@ =~= d.0 + ("\n"@ + end));
                text::lemma_back(d.0, "\n"@ + end);
            }
        }
    }
}

} // verus!
