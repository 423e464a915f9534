//! The native messaging host: what it does with a message of the extension, and with a request
//! of a command line.
use crate::error::{ErrorView, WebPilotError};
use crate::json;
use crate::json::{Json, JsonView};
use crate::pending::Pending;
use crate::text;
use crate::text::{dec, push_decimal, same, trim};
use vstd::prelude::*;
use vstd::string::StringExecFns;

verus! {

/// What the host knows of the extension's version.
#[derive(Debug, PartialEq, Eq)]
pub enum GateState {
    /// The extension has not reported a version yet.
    Unknown,
    /// The extension reported the version that this program carries.
    Matched,
    /// The extension reported another version, or none: the empty string.
    Mismatch(String),
}

/// What a gate is.
pub enum GateView {
    Unknown,
    Matched,
    Mismatch(Seq<char>),
}

impl View for GateState {
    type V = GateView;

    open spec fn view(&self) -> GateView {
        match self {
            GateState::Unknown => GateView::Unknown,
            GateState::Matched => GateView::Matched,
            GateState::Mismatch(v) => GateView::Mismatch(v@),
        }
    }
}

impl GateState {
    /// A copy of the state.
    pub fn copy(&self) -> (r: GateState)
        ensures
            r@ == self@,
    {
        match self {
            GateState::Unknown => GateState::Unknown,
            GateState::Matched => GateState::Matched,
            GateState::Mismatch(v) => GateState::Mismatch(v.clone()),
        }
    }
}

/// The state that a reported version leads to. No version at all is a mismatch.
pub open spec fn gate_for(reported: Option<Seq<char>>, expected: Seq<char>) -> GateView {
    match reported {
        Some(v) => if v == expected {
            GateView::Matched
        } else {
            GateView::Mismatch(v)
        },
        None => GateView::Mismatch(Seq::empty()),
    }
}

/// What the host does with a message of the extension.
pub enum Received {
    /// Nothing: the message is a reply to a keepalive.
    Ignore,
    /// Sends both, in this order: the message is a keepalive.
    Answer { pong: Json, config: Json },
    /// Reports that the message cannot be handled.
    Reject(&'static str),
    /// Saves what the response carries, then delivers it.
    Response { screenshot: Option<String>, session: Option<String> },
}

/// What a reception is.
pub enum ReceivedView {
    Ignore,
    Answer(JsonView, JsonView),
    Reject(Seq<char>),
    Response(Option<Seq<char>>, Option<Seq<char>>),
}

impl View for Received {
    type V = ReceivedView;

    open spec fn view(&self) -> ReceivedView {
        match self {
            Received::Ignore => ReceivedView::Ignore,
            Received::Answer { pong, config } => ReceivedView::Answer(pong@, config@),
            Received::Reject(m) => ReceivedView::Reject(m@),
            Received::Response { screenshot, session } => ReceivedView::Response(
                crate::output::text_opt(*screenshot),
                crate::output::text_opt(*session),
            ),
        }
    }
}

/// `{"id": id, "result": {"type": "Pong"}}`.
pub open spec fn pong_view(id: u64) -> JsonView {
    JsonView::object().with("id"@, JsonView::number(id)).with(
        "result"@,
        JsonView::object().with("type"@, JsonView::Str("Pong"@)),
    )
}

/// The host's settings as they go to the extension.
pub open spec fn config_view(navigation_ms: u64) -> JsonView {
    JsonView::object().with(
        "result"@,
        JsonView::object().with("type"@, JsonView::Str("Config"@)).with(
            "schema"@,
            JsonView::number(1),
        ).with(
            "timeouts"@,
            JsonView::object().with("navigation_ms"@, JsonView::number(navigation_ms)),
        ),
    )
}

/// Whether a message is the reply to a keepalive.
pub open spec fn is_pong(msg: JsonView) -> bool {
    msg.str_at2("result"@, "type"@) == Some("Pong"@)
}

/// Whether a message is a keepalive.
pub open spec fn is_ping(msg: JsonView) -> bool {
    msg.str_at2("command"@, "type"@) == Some("Ping"@)
}

/// The id of a message, where it has one.
pub open spec fn message_id(msg: JsonView) -> Option<u64> {
    match msg.get("id"@) {
        Some(v) => v.as_u64(),
        None => None,
    }
}

/// What the host does with a message.
pub open spec fn received(msg: JsonView, navigation_ms: u64) -> ReceivedView {
    if is_pong(msg) {
        ReceivedView::Ignore
    } else if is_ping(msg) {
        match message_id(msg) {
            Some(id) => ReceivedView::Answer(pong_view(id), config_view(navigation_ms)),
            None => ReceivedView::Reject("missing id"@),
        }
    } else {
        ReceivedView::Response(
            msg.str_at2("result"@, "screenshot_b64"@),
            msg.str_at2("result"@, "session_data"@),
        )
    }
}

/// The state once the host has seen a message.
pub open spec fn gate_after(gate: GateView, msg: JsonView, expected: Seq<char>) -> GateView {
    if !is_pong(msg) && is_ping(msg) {
        gate_for(msg.str_at2("command"@, "extension_version"@), expected)
    } else {
        gate
    }
}

fn owned(s: Option<&str>) -> (r: Option<String>)
    ensures
        r is Some <==> s is Some,
        r is Some ==> r->0@ == s->0@,
{
    match s {
        Some(s) => Some(s.to_owned()),
        None => None,
    }
}

fn id_of(msg: &Json) -> (r: Option<u64>)
    ensures
        r == message_id(msg@),
{
    match msg.get("id") {
        Some(v) => v.as_u64(),
        None => None,
    }
}

/// Decides what to do with a message of the extension. A keepalive resolves the version gate, and
/// is answered with the host's settings beside the reply.
pub fn process_nm_message(
    msg: &Json,
    gate: &mut GateState,
    expected: &str,
    navigation_ms: u64,
) -> (r: Received)
    ensures
        r@ == received(msg@, navigation_ms),
        final(gate)@ == gate_after(old(gate)@, msg@, expected@),
{
    let pong = match msg.str_at2("result", "type") {
        Some(t) => same(t, "Pong"),
        None => false,
    };
    if pong {
        return Received::Ignore;
    }
    let ping = match msg.str_at2("command", "type") {
        Some(t) => same(t, "Ping"),
        None => false,
    };
    if ping {
        *gate = match msg.str_at2("command", "extension_version") {
            Some(v) => if same(v, expected) {
                GateState::Matched
            } else {
                GateState::Mismatch(v.to_owned())
            },
            None => GateState::Mismatch(String::new()),
        };
        return match id_of(msg) {
            Some(id) => Received::Answer {
                pong: Json::object().with("id", Json::number(id)).with(
                    "result",
                    Json::object().with("type", Json::string("Pong")),
                ),
                config: Json::object().with(
                    "result",
                    Json::object().with("type", Json::string("Config")).with(
                        "schema",
                        Json::number(1),
                    ).with(
                        "timeouts",
                        Json::object().with("navigation_ms", Json::number(navigation_ms)),
                    ),
                ),
            },
            None => Received::Reject("missing id"),
        };
    }
    Received::Response {
        screenshot: owned(msg.str_at2("result", "screenshot_b64")),
        session: owned(msg.str_at2("result", "session_data")),
    }
}

/// A message with a field of its result set and another taken out, where the result is an object.
pub open spec fn result_swap(
    msg: JsonView,
    put: Seq<char>,
    value: Seq<char>,
    drop: Seq<char>,
) -> JsonView {
    match msg.get("result"@) {
        Some(JsonView::Object(fields)) => msg.with(
            "result"@,
            JsonView::Object(fields).with(put, JsonView::Str(value)).without(drop),
        ),
        _ => msg,
    }
}

fn swap_in_result(msg: Json, put: &str, value: &str, drop: &str) -> (r: Json)
    ensures
        r@ == result_swap(msg@, put@, value@, drop@),
{
    let swapped = match msg.get("result") {
        Some(result) => if result.is_object() {
            Some(result.copy().with(put, Json::string(value)).without(drop))
        } else {
            None
        },
        None => None,
    };
    match swapped {
        Some(result) => msg.with("result", result),
        None => msg,
    }
}

/// The response once its screenshot has been saved, or failed to be: the path, or the failure,
/// takes the place of the image.
pub fn with_screenshot(msg: Json, saved: &Result<String, String>) -> (r: Json)
    ensures
        r@ == (match *saved {
            Ok(path) => result_swap(msg@, "screenshot_path"@, path@, "screenshot_b64"@),
            Err(e) => result_swap(msg@, "screenshot_error"@, e@, "screenshot_b64"@),
        }),
{
    match saved {
        Ok(path) => swap_in_result(msg, "screenshot_path", path.as_str(), "screenshot_b64"),
        Err(e) => swap_in_result(msg, "screenshot_error", e.as_str(), "screenshot_b64"),
    }
}

/// The result of an export that could not be saved.
pub open spec fn session_failure_view(path: Seq<char>, reason: Seq<char>) -> JsonView {
    JsonView::object().with("type"@, JsonView::Str("Error"@)).with(
        "error"@,
        JsonView::object().with("code"@, JsonView::Str("Other"@)).with(
            "message"@,
            JsonView::Str("Session save failed at "@ + path + ": "@ + reason),
        ),
    )
}

/// The response once its session data has been written to `path`, or failed to be: the path takes
/// the place of the data, and a failure the place of the whole result.
pub fn with_session(msg: Json, path: &str, written: &Result<(), String>) -> (r: Json)
    ensures
        r@ == (match *written {
            Ok(_) => result_swap(msg@, "path"@, path@, "session_data"@),
            Err(e) => msg@.with("result"@, session_failure_view(path@, e@)),
        }),
{
    match written {
        Ok(_) => swap_in_result(msg, "path", path, "session_data"),
        Err(e) => {
            let message = "Session save failed at ".to_owned().concat(path).concat(": ").concat(
                e.as_str(),
            );
            msg.with(
                "result",
                Json::object().with("type", Json::string("Error")).with(
                    "error",
                    Json::object().with("code", Json::string("Other")).with(
                        "message",
                        Json::Str(message),
                    ),
                ),
            )
        },
    }
}

/// The name of the file that an export is saved under.
pub fn session_file_name(nanos: u128) -> (r: String)
    ensures
        r@ == "session_"@ + text::decimal(nanos as nat) + ".json"@,
{
    let mut name = "session_".to_owned();
    push_decimal(&mut name, nanos);
    name.append(".json");
    name
}

/// The request that a response answers. Request ids are 32 bits wide: any other id names none.
pub open spec fn response_id(msg: JsonView) -> Option<u64> {
    match message_id(msg) {
        Some(id) => if id <= u32::MAX {
            Some(id)
        } else {
            None
        },
        None => None,
    }
}

/// Takes what the response goes to: `None` where no request waits for it.
pub fn dispatch<T>(msg: &Json, pending: &mut Pending<T>) -> (r: Result<Option<T>, &'static str>)
    ensures
        match response_id(msg@) {
            Some(id) => {
                &&& r is Ok
                &&& final(pending)@ == old(pending)@.remove(id)
                &&& r->Ok_0 is Some <==> old(pending)@.contains_key(id)
                &&& r->Ok_0 is Some ==> r->Ok_0->0 == old(pending)@[id]
            },
            None => {
                &&& r is Err
                &&& r->Err_0@ == "response missing or out-of-range id"@
                &&& final(pending)@ == old(pending)@
            },
        },
{
    match id_of(msg) {
        Some(id) => if id <= 0xffff_ffff {
            Ok(pending.take(id))
        } else {
            Err("response missing or out-of-range id")
        },
        None => Err("response missing or out-of-range id"),
    }
}

/// The longest request, in bytes.
pub const MAX_REQUEST_BYTES: u64 = 8388608;

/// What the host does with what a command line sent.
pub enum Admission {
    /// Nothing: the other side closed without a request.
    Close,
    /// Answers with an error.
    Refuse(WebPilotError),
    /// Gives up, without an answer: the request is no JSON.
    Fail(String),
    /// Goes on with the request.
    Request { request: Json, cli_id: Option<Json> },
}

/// What an admission is.
pub enum AdmissionView {
    Close,
    Refuse(ErrorView),
    Fail(Seq<char>),
    Request(JsonView, Option<JsonView>),
}

impl View for Admission {
    type V = AdmissionView;

    open spec fn view(&self) -> AdmissionView {
        match self {
            Admission::Close => AdmissionView::Close,
            Admission::Refuse(e) => AdmissionView::Refuse(e@),
            Admission::Fail(m) => AdmissionView::Fail(m@),
            Admission::Request { request, cli_id } => AdmissionView::Request(
                request@,
                json::json_opt(*cli_id),
            ),
        }
    }
}

/// What the host does with a line of a command line.
pub open spec fn admission(line: Seq<char>) -> AdmissionView {
    if line.len() == 0 {
        AdmissionView::Close
    } else if vstd::utf8::encode_utf8(line).len() > MAX_REQUEST_BYTES {
        AdmissionView::Refuse(
            ErrorView::InvalidArgument(
                "request exceeds the "@ + text::decimal(MAX_REQUEST_BYTES as nat)
                    + "-byte limit"@,
            ),
        )
    } else {
        match json::parsed_json(text::trimmed(line)) {
            Ok(request) => AdmissionView::Request(request, request.get("id"@)),
            Err(m) => AdmissionView::Fail(m),
        }
    }
}

fn id_copy(request: &Json) -> (r: Option<Json>)
    ensures
        json::json_opt(r) == request@.get("id"@),
{
    match request.get("id") {
        Some(id) => Some(id.copy()),
        None => None,
    }
}

/// Decides what to do with a line of a command line.
pub fn accept_line(line: &str) -> (r: Admission)
    ensures
        r@ == admission(line@),
{
    if line.is_empty() {
        return Admission::Close;
    }
    if line.as_bytes().len() as u64 > MAX_REQUEST_BYTES {
        let detail = "request exceeds the ".to_owned().concat(dec(MAX_REQUEST_BYTES).as_str()).concat(
            "-byte limit",
        );
        return Admission::Refuse(WebPilotError::InvalidArgument { detail });
    }
    match Json::parse(trim(line).as_str()) {
        Ok(request) => {
            let cli_id = id_copy(&request);
            Admission::Request { request, cli_id }
        },
        Err(m) => Admission::Fail(m),
    }
}

/// The error with which a gate refuses a request. `None` lets the request through.
pub open spec fn gate_error(gate: GateView, expected: Seq<char>) -> Option<ErrorView> {
    match gate {
        GateView::Matched => None,
        GateView::Mismatch(v) => Some(
            ErrorView::VersionMismatch(
                if v.len() == 0 {
                    "unknown"@
                } else {
                    v
                },
                expected,
            ),
        ),
        GateView::Unknown => Some(
            ErrorView::ConnectionLost("extension has not completed its version handshake"@),
        ),
    }
}

/// Holds a request to the version gate. A gate that was never resolved lets nothing through.
pub fn check_gate(gate: &GateState, expected: &str) -> (r: Option<WebPilotError>)
    ensures
        r is Some <==> gate_error(gate@, expected@) is Some,
        r is Some ==> r->0@ == gate_error(gate@, expected@)->0,
{
    match gate {
        GateState::Matched => None,
        GateState::Mismatch(v) => {
            let extension = if v.as_str().is_empty() {
                "unknown".to_owned()
            } else {
                v.clone()
            };
            Some(WebPilotError::VersionMismatch { extension, expected: expected.to_owned() })
        },
        GateState::Unknown => Some(
            WebPilotError::lost("extension has not completed its version handshake"),
        ),
    }
}

/// The state as it stands; one that cannot be read counts as unresolved.
pub fn current_gate(gate: Option<&GateState>) -> (r: GateState)
    ensures
        r@ == (match gate {
            Some(g) => g@,
            None => GateView::Unknown,
        }),
{
    match gate {
        Some(g) => g.copy(),
        None => GateState::Unknown,
    }
}

/// Whether waiting for the version is over: it is known, or the deadline has passed.
pub fn resolve_gate(gate: &GateState, now_ms: u64, deadline_ms: u64) -> (r: bool)
    ensures
        r == (gate@ != GateView::Unknown || now_ms >= deadline_ms),
{
    match gate {
        GateState::Unknown => now_ms >= deadline_ms,
        _ => true,
    }
}

/// The request as it goes to the extension.
pub open spec fn forwarded(request: JsonView, command: JsonView, host_id: u32) -> JsonView {
    request.with("command"@, command).with("id"@, JsonView::number(host_id as u64))
}

/// The request as it goes to the extension: the command as it was validated, under the host's own
/// id.
pub fn forward(request: Json, command: Json, host_id: u32) -> (r: Json)
    requires
        request@ is Object,
    ensures
        r@ == forwarded(request@, command@, host_id),
{
    request.with("command", command).with("id", Json::number(host_id as u64))
}

/// The error for a request that is too long for the channel to the extension.
pub open spec fn size_error(size: nat, limit: nat) -> Option<ErrorView> {
    if size > limit {
        Some(
            ErrorView::InvalidArgument(
                "command is "@ + text::decimal(size) + " bytes, over the "@ + text::decimal(limit)
                    + "-byte Native Messaging limit"@,
            ),
        )
    } else {
        None
    }
}

/// Refuses a request that is too long for the channel to the extension.
pub fn check_size(request: &Json, limit: u64) -> (r: Option<WebPilotError>)
    ensures
        ({
            let size = vstd::utf8::encode_utf8(json::compact_json(json::settled(request@))).len();
            &&& r is Some <==> size_error(size, limit as nat) is Some
            &&& r is Some ==> r->0@ == size_error(size, limit as nat)->0
        }),
{
    let encoded = request.to_text();
    let size: u64 = encoded.as_str().as_bytes().len() as u64;
    if size > limit {
        let detail = "command is ".to_owned().concat(dec(size).as_str()).concat(
            " bytes, over the ",
        ).concat(dec(limit).as_str()).concat("-byte Native Messaging limit");
        Some(WebPilotError::InvalidArgument { detail })
    } else {
        None
    }
}

/// What becomes of a request of a command line at the host's door.
pub enum Entry {
    /// Nothing: the other side closed without a request.
    Close,
    /// The host gives up, without an answer.
    Fail(String),
    /// The request is answered with an error.
    Refuse { error: WebPilotError, cli_id: Option<Json> },
    /// The request goes on to the rules for commands.
    Proceed { request: Json, cli_id: Option<Json> },
}

/// What an entry is.
pub enum EntryView {
    Close,
    Fail(Seq<char>),
    Refuse(ErrorView, Option<JsonView>),
    Proceed(JsonView, Option<JsonView>),
}

impl View for Entry {
    type V = EntryView;

    open spec fn view(&self) -> EntryView {
        match self {
            Entry::Close => EntryView::Close,
            Entry::Fail(m) => EntryView::Fail(m@),
            Entry::Refuse { error, cli_id } => EntryView::Refuse(
                error@,
                json::json_opt(*cli_id),
            ),
            Entry::Proceed { request, cli_id } => EntryView::Proceed(
                request@,
                json::json_opt(*cli_id),
            ),
        }
    }
}

/// What becomes of a line of a command line: it must hold a request, and the extension must be of
/// this program's version.
pub open spec fn entered(line: Seq<char>, gate: GateView, expected: Seq<char>) -> EntryView {
    match admission(line) {
        AdmissionView::Close => EntryView::Close,
        AdmissionView::Fail(m) => EntryView::Fail(m),
        AdmissionView::Refuse(e) => EntryView::Refuse(e, None),
        AdmissionView::Request(request, cli_id) => match gate_error(gate, expected) {
            Some(e) => EntryView::Refuse(e, cli_id),
            None => EntryView::Proceed(request, cli_id),
        },
    }
}

/// Decides what becomes of a line of a command line, once waiting for the version is over.
pub fn handle_one_cli_request(line: &str, gate: &GateState, expected: &str) -> (r: Entry)
    ensures
        r@ == entered(line@, gate@, expected@),
{
    match accept_line(line) {
        Admission::Close => Entry::Close,
        Admission::Fail(m) => Entry::Fail(m),
        Admission::Refuse(error) => Entry::Refuse { error, cli_id: None },
        Admission::Request { request, cli_id } => match check_gate(gate, expected) {
            Some(error) => Entry::Refuse { error, cli_id },
            None => Entry::Proceed { request, cli_id },
        },
    }
}

/// Sends a request on: the command as the rules let it through, under the host's own id, where it
/// fits the channel to the extension. Only then does anything wait for a response.
pub fn submit<T>(
    request: Json,
    command: Result<Json, WebPilotError>,
    host_id: u32,
    limit: u64,
    pending: &mut Pending<T>,
    slot: T,
) -> (r: Result<Json, WebPilotError>)
    requires
        command is Ok ==> request@ is Object,
    ensures
        match command {
            Err(e) => r is Err && r->Err_0 == e && final(pending)@ == old(pending)@,
            Ok(c) => {
                let sent = forwarded(request@, c@, host_id);
                match size_error(
                    vstd::utf8::encode_utf8(json::written(sent)).len(),
                    limit as nat,
                ) {
                    Some(e) => r is Err && r->Err_0@ == e && final(pending)@ == old(pending)@,
                    None => r is Ok && r->Ok_0@ == sent && final(pending)@ == old(pending)@.insert(
                        host_id as u64,
                        slot,
                    ),
                }
            },
        },
{
    let command = match command {
        Ok(c) => c,
        Err(e) => {
            return Err(e);
        },
    };
    let sent = forward(request, command, host_id);
    match check_size(&sent, limit) {
        Some(e) => Err(e),
        None => {
            pending.insert(host_id as u64, slot);
            Ok(sent)
        },
    }
}

/// A value with its id set, where there is one to set.
pub open spec fn with_id(msg: JsonView, id: Option<JsonView>) -> JsonView {
    match id {
        Some(id) => msg.with("id"@, id),
        None => msg,
    }
}

/// The response as it goes back to the command line: under the command line's own id.
pub fn finish(response: Json, cli_id: Option<Json>) -> (r: Json)
    requires
        response@ is Object,
    ensures
        r@ == with_id(response@, json::json_opt(cli_id)),
{
    match cli_id {
        Some(id) => response.with("id", id),
        None => response,
    }
}

/// The response that reports an error, in the form that a failed command's response has.
pub fn reply_error(cli_id: Option<Json>, wire: Json) -> (r: Json)
    ensures
        r@ == with_id(
            JsonView::object().with(
                "result"@,
                JsonView::object().with("type"@, JsonView::Str("Error"@)).with("error"@, wire@),
            ),
            json::json_opt(cli_id),
        ),
{
    let response = Json::object().with(
        "result",
        Json::object().with("type", Json::string("Error")).with("error", wire),
    );
    match cli_id {
        Some(id) => response.with("id", id),
        None => response,
    }
}

/// How the wait for a response ended.
pub enum Wait {
    Response(Json),
    Closed,
    TimedOut { secs: u64 },
}

/// What the command line gets: the response under its own id, or nothing, with the reason.
pub fn conclude<T>(
    wait: Wait,
    cli_id: Option<Json>,
    host_id: u32,
    pending: &mut Pending<T>,
) -> (r: Result<Json, String>)
    requires
        wait matches Wait::Response(v) ==> v@ is Object,
    ensures
        match wait {
            Wait::Response(v) => {
                &&& r is Ok
                &&& r->Ok_0@ == with_id(v@, json::json_opt(cli_id))
                &&& final(pending)@ == old(pending)@
            },
            Wait::Closed => {
                &&& r is Err
                &&& r->Err_0@ == "response channel closed"@
                &&& final(pending)@ == old(pending)@.remove(host_id as u64)
            },
            Wait::TimedOut { secs } => {
                &&& r is Err
                &&& r->Err_0@ == "response timeout after "@ + text::decimal(secs as nat) + "s"@
                &&& final(pending)@ == old(pending)@.remove(host_id as u64)
            },
        },
{
    match wait {
        Wait::Response(v) => Ok(finish(v, cli_id)),
        Wait::Closed => {
            let _ = pending.take(host_id as u64);
            Err("response channel closed".to_owned())
        },
        Wait::TimedOut { secs } => {
            let _ = pending.take(host_id as u64);
            Err(
                "response timeout after ".to_owned().concat(dec(secs).as_str()).concat("s"),
            )
        },
    }
}

/// A keepalive always settles the state: to a match exactly where the reported version is the
/// expected one. No other message touches it.
pub proof fn law_pings_resolve_the_gate(gate: GateView, msg: JsonView, expected: Seq<char>)
    ensures
        !is_pong(msg) && is_ping(msg) ==> {
            &&& gate_after(gate, msg, expected) != GateView::Unknown
            &&& (gate_after(gate, msg, expected) == GateView::Matched) == (msg.str_at2(
                "command"@,
                "extension_version"@,
            ) == Some(expected))
        },
        is_pong(msg) || !is_ping(msg) ==> gate_after(gate, msg, expected) == gate,
{
}

/// Only a matched gate lets a request through.
pub proof fn law_only_a_match_admits(gate: GateView, expected: Seq<char>)
    ensures
        gate_error(gate, expected) is None <==> gate == GateView::Matched,
{
}

/// No request gets past the host's door but to an extension of this program's version.
pub proof fn law_only_matched_extensions_are_asked(
    line: Seq<char>,
    gate: GateView,
    expected: Seq<char>,
)
    ensures
        entered(line, gate, expected) is Proceed ==> gate == GateView::Matched,
        gate == GateView::Matched && admission(line) is Request ==> entered(line, gate, expected)
            is Proceed,
{
}

/// A response never carries the image on: whether it was saved or not, the result that goes to
/// the command line has no `screenshot_b64`.
pub proof fn law_no_image_survives(msg: JsonView, put: Seq<char>, value: Seq<char>)
    requires
        msg.at2("result"@, "screenshot_b64"@) is Some,
    ensures
        result_swap(msg, put, value, "screenshot_b64"@).at2("result"@, "screenshot_b64"@) is None,
        put != "screenshot_b64"@ ==> result_swap(msg, put, value, "screenshot_b64"@).str_at2(
            "result"@,
            put,
        ) == Some(value),
{
}

/// What comes back to the command line carries the id that it sent, whatever id the request
/// travelled under.
pub proof fn law_ids_come_back(response: JsonView, cli_id: JsonView)
    requires
        response is Object,
    ensures
        with_id(response, Some(cli_id)).get("id"@) == Some(cli_id),
{
}

/// What travels to the extension carries the host's id and the validated command, and nothing
/// else of the request is lost.
pub proof fn law_forwarding_keeps_the_rest(
    request: JsonView,
    command: JsonView,
    host_id: u64,
    key: Seq<char>,
)
    requires
        request is Object,
    ensures
        ({
            let sent = request.with("command"@, command).with("id"@, JsonView::number(host_id));
            &&& message_id(sent) == Some(host_id)
            &&& sent.get("command"@) == Some(command)
            &&& key != "command"@ && key != "id"@ ==> sent.get(key) == request.get(key)
        }),
{
    reveal_strlit("id");
    reveal_strlit("command");
    assert("id"@.len() != "command"@.len());
}

/// What becomes of a message of the extension: a keepalive is answered with a pong under its own id
/// and with the host's settings, and lets commands in or not by the version it reports; a pong is passed
/// over; anything else is a response, whose image and session data are what the result carries.
pub proof fn law_messages_of_the_extension(
    msg: Json,
    gate: &mut GateState,
    expected: &str,
    navigation_ms: u64,
    r: Received,
)
    requires
        call_ensures(process_nm_message, (&msg, gate, expected, navigation_ms), r),
    ensures
        ({
            let at = |a: Seq<char>, b: Seq<char>|
                match msg@.get(a) {
                    Some(v) => v.get(b),
                    None => None,
                };
            let pong = at("result"@, "type"@) == Some(JsonView::Str("Pong"@));
            let ping = !pong && at("command"@, "type"@) == Some(JsonView::Str("Ping"@));
            &&& pong ==> r is Ignore
            &&& ping ==> match msg@.get("id"@) {
                Some(JsonView::Num(json::NumberView::Unsigned(id))) => r matches Received::Answer {
                    pong: sent,
                    config,
                } && {
                    &&& sent@.get("id"@) == Some(JsonView::Num(json::NumberView::Unsigned(id)))
                    &&& sent@.get("result"@) matches Some(told) && told.get("type"@) == Some(
                        JsonView::Str("Pong"@),
                    )
                    &&& config@.get("result"@) matches Some(told) && told.get("type"@) == Some(
                        JsonView::Str("Config"@),
                    ) && (told.get("timeouts"@) matches Some(t) && t.get("navigation_ms"@) == Some(
                        JsonView::Num(json::NumberView::Unsigned(navigation_ms)),
                    ))
                },
                _ => r is Reject,
            }
            &&& ping ==> match at("command"@, "extension_version"@) {
                Some(JsonView::Str(v)) => if v == expected@ {
                    final(gate)@ == GateView::Matched
                } else {
                    final(gate)@ == GateView::Mismatch(v)
                },
                _ => final(gate)@ is Mismatch,
            }
            &&& !ping ==> final(gate)@ == old(gate)@
            &&& !ping && !pong ==> (r matches Received::Response { screenshot, session } && {
                &&& match at("result"@, "screenshot_b64"@) {
                    Some(JsonView::Str(b64)) => screenshot is Some && screenshot->0@ == b64,
                    _ => screenshot is None,
                }
                &&& match at("result"@, "session_data"@) {
                    Some(JsonView::Str(data)) => session is Some && session->0@ == data,
                    _ => session is None,
                }
            })
        }),
{
    reveal_strlit("id");
    reveal_strlit("result");
    assert("id"@.len() == 2);
    assert("result"@.len() == 6);
    reveal_strlit("type");
    reveal_strlit("schema");
    reveal_strlit("timeouts");
    assert("type"@.len() == 4);
    assert("schema"@.len() == 6);
    assert("timeouts"@.len() == 8);
}

/// A response whose image or session was saved tells where, under the name of it, and no longer
/// carries the data; where saving failed it tells why. All else of it stays as it was.
pub proof fn law_saved_data_is_told(
    msg: Json,
    result: Map<Seq<char>, JsonView>,
    saved: Result<String, String>,
    shot: Json,
    path: &str,
    written: Result<(), String>,
    session: Json,
    key: Seq<char>,
)
    requires
        msg@.get("result"@) == Some(JsonView::Object(result)),
        call_ensures(with_screenshot, (msg, &saved), shot),
        call_ensures(with_session, (msg, path, &written), session),
    ensures
        shot@.get("result"@) matches Some(told) && {
            &&& told.get("screenshot_b64"@) is None
            &&& saved matches Ok(p) ==> told.get("screenshot_path"@) == Some(JsonView::Str(p@))
            &&& saved matches Err(e) ==> told.get("screenshot_error"@) == Some(JsonView::Str(e@))
            &&& key != "screenshot_b64"@ && key != "screenshot_path"@ && key != "screenshot_error"@
                ==> told.get(key) == JsonView::Object(result).get(key)
        },
        written is Ok ==> (session@.get("result"@) matches Some(told) && {
            &&& told.get("session_data"@) is None
            &&& told.get("path"@) == Some(JsonView::Str(path@))
            &&& key != "session_data"@ && key != "path"@ ==> told.get(key) == JsonView::Object(
                result,
            ).get(key)
        }),
        written matches Err(e) ==> (session@.get("result"@) matches Some(told) && told.get("type"@)
            == Some(JsonView::Str("Error"@)) && (told.get("error"@) matches Some(w) && w.get(
            "message"@,
        ) == Some(JsonView::Str("Session save failed at "@ + path@ + ": "@ + e@)))),
        key != "result"@ ==> shot@.get(key) == msg@.get(key) && session@.get(key) == msg@.get(key),
{
    reveal_strlit("screenshot_b64");
    reveal_strlit("screenshot_path");
    reveal_strlit("screenshot_error");
    reveal_strlit("session_data");
    reveal_strlit("path");
    assert("screenshot_b64"@.len() == 14);
    assert("screenshot_path"@.len() == 15);
    assert("screenshot_error"@.len() == 16);
    assert("session_data"@.len() == 12);
    assert("path"@.len() == 4);
    reveal_strlit("type");
    reveal_strlit("error");
    reveal_strlit("code");
    reveal_strlit("message");
    assert("type"@.len() == 4);
    assert("error"@.len() == 5);
    assert("code"@.len() == 4);
    assert("message"@.len() == 7);
    assert("type"@[0] != "code"@[0]);
}

/// A response goes to the request that its id names, which then no longer waits; an id that can be no
/// request's names none and changes nothing.
pub proof fn law_responses_are_dispatched<T>(
    msg: Json,
    pending: &mut Pending<T>,
    r: Result<Option<T>, &'static str>,
)
    requires
        call_ensures(dispatch::<T>, (&msg, pending), r),
    ensures
        match msg@.get("id"@) {
            Some(JsonView::Num(json::NumberView::Unsigned(id))) => if id <= 4294967295 {
                &&& r is Ok
                &&& r->Ok_0 is Some <==> old(pending)@.contains_key(id)
                &&& old(pending)@.contains_key(id) ==> r->Ok_0 == Some(old(pending)@[id])
                &&& !final(pending)@.contains_key(id)
                &&& forall|other: u64|
                    other != id ==> (final(pending)@.contains_key(other) <==> #[trigger] old(pending)@.contains_key(other)) && (old(pending)@.contains_key(other) ==> final(pending)@[other] == old(pending)@[other])
            } else {
                r is Err && final(pending)@ == old(pending)@
            },
            _ => r is Err && final(pending)@ == old(pending)@,
        },
{
}

/// A line of a command line is let in exactly where it is a request, no longer than the limit, and
/// the extension is of this program's version; it goes on as it was read, with its own id. What is
/// refused is refused under that id, an extension of another version with both versions named.
pub proof fn law_requests_are_let_in(line: Seq<char>, gate: GateView, expected: Seq<char>)
    ensures
        line.len() == 0 ==> entered(line, gate, expected) is Close,
        line.len() > 0 && vstd::utf8::encode_utf8(line).len() > 8388608 ==> (entered(
            line,
            gate,
            expected,
        ) matches EntryView::Refuse(ErrorView::InvalidArgument(_), _)),
        line.len() > 0 && vstd::utf8::encode_utf8(line).len() <= 8388608 ==> match json::parsed_json(
            text::trimmed(line),
        ) {
            Err(m) => entered(line, gate, expected) == EntryView::Fail(m),
            Ok(request) => match gate {
                GateView::Matched => entered(line, gate, expected) == EntryView::Proceed(
                    request,
                    request.get("id"@),
                ),
                GateView::Mismatch(v) => entered(line, gate, expected) matches EntryView::Refuse(
                    ErrorView::VersionMismatch(theirs, ours),
                    id,
                ) && id == request.get("id"@) && ours == expected && (v.len() > 0 ==> theirs == v),
                GateView::Unknown => entered(line, gate, expected) matches EntryView::Refuse(
                    ErrorView::ConnectionLost(_),
                    id,
                ) && id == request.get("id"@),
            },
        },
{
}

/// A request goes to the extension under the host's id, with the command as the rules let it through
/// and all else as it came, and waits under that id; one that was denied, or that is too long for the
/// channel, is not sent and nothing waits for it.
pub proof fn law_requests_are_submitted<T>(
    request: Json,
    command: Result<Json, WebPilotError>,
    host_id: u32,
    limit: u64,
    pending: &mut Pending<T>,
    slot: T,
    r: Result<Json, WebPilotError>,
    key: Seq<char>,
)
    requires
        request@ is Object,
        call_ensures(submit::<T>, (request, command, host_id, limit, pending, slot), r),
    ensures
        command matches Err(e) ==> r is Err && r->Err_0@ == e@ && final(pending)@ == old(pending)@,
        r is Err ==> final(pending)@ == old(pending)@,
        command is Ok && r is Err ==> r->Err_0@ is InvalidArgument,
        r matches Ok(sent) ==> {
            &&& command is Ok
            &&& sent@.get("id"@) == Some(
                JsonView::Num(json::NumberView::Unsigned(host_id as u64)),
            )
            &&& sent@.get("command"@) == Some(command->Ok_0@)
            &&& key != "id"@ && key != "command"@ ==> sent@.get(key) == request@.get(key)
            &&& final(pending)@ == old(pending)@.insert(host_id as u64, slot)
            &&& vstd::utf8::encode_utf8(json::compact_json(json::settled(sent@))).len() <= limit
        },
        command matches Ok(c) ==> {
            let sent = request@.with("command"@, c@).with(
                "id"@,
                JsonView::Num(json::NumberView::Unsigned(host_id as u64)),
            );
            vstd::utf8::encode_utf8(json::compact_json(json::settled(sent))).len() <= limit ==> r
                is Ok
        },
{
    reveal_strlit("id");
    reveal_strlit("command");
    assert("id"@.len() == 2);
    assert("command"@.len() == 7);
}

/// What a command line gets back is the response as it came, under the id that the command line sent;
/// where none came the reason is told and the request no longer waits.
pub proof fn law_command_lines_are_answered<T>(
    wait: Wait,
    cli_id: Option<Json>,
    host_id: u32,
    pending: &mut Pending<T>,
    r: Result<Json, String>,
    key: Seq<char>,
)
    requires
        wait matches Wait::Response(v) ==> v@ is Object,
        call_ensures(conclude::<T>, (wait, cli_id, host_id, pending), r),
    ensures
        r is Ok <==> wait is Response,
        wait matches Wait::Response(v) ==> {
            &&& cli_id is Some ==> r->Ok_0@.get("id"@) == Some(cli_id->0@)
            &&& cli_id is None ==> r->Ok_0@.get("id"@) == v@.get("id"@)
            &&& key != "id"@ ==> r->Ok_0@.get(key) == v@.get(key)
            &&& final(pending)@ == old(pending)@
        },
        !(wait is Response) ==> final(pending)@ == old(pending)@.remove(host_id as u64),
        wait matches Wait::TimedOut { secs } ==> text::holds(r->Err_0@, text::decimal(secs as nat)),
{
    if let Wait::TimedOut { secs } = wait {
        text::lemma_part("response timeout after "@, text::decimal(secs as nat), "s"@);
    }
}

/// An error goes back as a failed command's result does, with the error and the id of the request.
pub proof fn law_errors_are_answered(cli_id: Option<Json>, wire: Json, r: Json)
    requires
        call_ensures(reply_error, (cli_id, wire), r),
    ensures
        r@.get("result"@) matches Some(told) && told.get("type"@) == Some(JsonView::Str("Error"@))
            && told.get("error"@) == Some(wire@),
        cli_id is Some ==> r@.get("id"@) == Some(cli_id->0@),
        cli_id is None ==> r@.get("id"@) is None,
{
    reveal_strlit("result");
    reveal_strlit("id");
    assert("result"@.len() == 6);
    assert("id"@.len() == 2);
    reveal_strlit("type");
    reveal_strlit("error");
    assert("type"@.len() == 4);
    assert("error"@.len() == 5);
}

/// Waiting for the version is over exactly where it is known or the time is up.
pub proof fn law_the_gate_is_waited_for(
    gate: &GateState,
    now_ms: u64,
    deadline_ms: u64,
    r: bool,
    held: Option<&GateState>,
    now: GateState,
)
    requires
        call_ensures(resolve_gate, (gate, now_ms, deadline_ms), r),
        call_ensures(current_gate, (held,), now),
    ensures
        r <==> !(gate is Unknown) || now_ms >= deadline_ms,
        held is None ==> now is Unknown,
        held matches Some(g) ==> (g is Matched <==> now is Matched) && (g is Unknown <==> now is Unknown)
            && (g matches GateState::Mismatch(v) ==> now matches GateState::Mismatch(w) && v@ == w@),
{
}

/// A line goes on exactly where it holds a request that is not too long and the extension is of this
/// program's version: as it was read, with its own id. A line that is too long, or comes while the
/// extension is another, is refused; what is no JSON fails; nothing closes.
pub proof fn law_lines_are_taken(
    line: &str,
    gate: &GateState,
    expected: &str,
    read: Admission,
    held: Option<WebPilotError>,
    r: Entry,
)
    requires
        call_ensures(accept_line, (line,), read),
        call_ensures(check_gate, (gate, expected), held),
        call_ensures(handle_one_cli_request, (line, gate, expected), r),
    ensures
        read is Close <==> line@.len() == 0,
        read is Refuse <==> line@.len() > 0 && vstd::utf8::encode_utf8(line@).len() > 8388608,
        read matches Admission::Refuse(e) ==> e is InvalidArgument,
        read matches Admission::Request { request, cli_id } ==> {
            &&& json::parsed_json(text::trimmed(line@)) == Ok::<JsonView, Seq<char>>(request@)
            &&& match cli_id {
                Some(id) => request@.get("id"@) == Some(id@),
                None => request@.get("id"@) is None,
            }
        },
        read is Fail <==> line@.len() > 0 && vstd::utf8::encode_utf8(line@).len() <= 8388608
            && json::parsed_json(text::trimmed(line@)) is Err,
        held is None <==> gate is Matched,
        gate is Unknown ==> held->0 is ConnectionLost,
        gate matches GateState::Mismatch(v) ==> (held->0 matches WebPilotError::VersionMismatch {
            extension,
            expected: ours,
        } && ours@ == expected@ && (v@.len() > 0 ==> extension@ == v@)),
        r is Close <==> read is Close,
        r is Fail <==> read is Fail,
        r is Proceed <==> read is Request && gate is Matched,
        r matches Entry::Proceed { request, cli_id } ==> {
            &&& json::parsed_json(text::trimmed(line@)) == Ok::<JsonView, Seq<char>>(request@)
            &&& match cli_id {
                Some(id) => request@.get("id"@) == Some(id@),
                None => request@.get("id"@) is None,
            }
        },
        r matches Entry::Refuse { error, cli_id } ==> {
            &&& read is Request ==> error@ == held->0@ && match (cli_id, read->cli_id) {
                (Some(a), Some(b)) => a@ == b@,
                (None, None) => true,
                _ => false,
            }
            &&& read matches Admission::Refuse(e) ==> error@ == e@ && cli_id is None
        },
{
}

/// What travels to the extension is the request with the validated command and the host's own id. An
/// export is saved under a name with the time in it.
pub proof fn law_requests_are_forwarded(
    request: Json,
    command: Json,
    host_id: u32,
    r: Json,
    key: Seq<char>,
    nanos: u128,
    name: String,
)
    requires
        request@ is Object,
        call_ensures(forward, (request, command, host_id), r),
        call_ensures(session_file_name, (nanos,), name),
    ensures
        r@.get("id"@) == Some(JsonView::Num(json::NumberView::Unsigned(host_id as u64))),
        r@.get("command"@) == Some(command@),
        key != "id"@ && key != "command"@ ==> r@.get(key) == request@.get(key),
        text::holds(name@, text::decimal(nanos as nat)),
        text::has_suffix(name@, ".json"@),
        text::has_prefix(name@, "session_"@),
{
    reveal_strlit("id");
    reveal_strlit("command");
    assert("id"@.len() == 2);
    assert("command"@.len() == 7);
    let n = text::decimal(nanos as nat);
    text::lemma_part("session_"@, n, ".json"@);
    text::lemma_back("session_"@ + n, ".json"@);
    assert(name@ =~= "session_"@ + (n + ".json"@));
    text::lemma_front("session_"@, n + ".json"@);
}

} // verus!
