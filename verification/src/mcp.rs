//! The MCP server: JSON-RPC 2.0, one message a line.
use crate::action;
use crate::action::{Action, ActionKind, ActionView};
use crate::codec;
use crate::codec::{base64_encode, utf8_text};
use crate::commands::wait;
use crate::commands::wait::{ConditionView, WaitCondition};
use crate::error;
use crate::error::{ErrorView, WebPilotError};
use crate::json;
use crate::json::{Json, JsonView};
use crate::output::{CommandOutput, OutputView};
use crate::text;
use crate::text::{is_blank, same};
use crate::tools;
use crate::tools::{tool_exists, tool_specs};
use vstd::prelude::*;
use vstd::string::StringExecFns;

verus! {

broadcast use json::group_json_views;

/// The arguments of `mcp`: none.
#[derive(Debug, Clone, Copy, PartialEq, Eq)]
pub struct McpArgs {}

/// The protocol revision that the server implements.
pub open spec fn protocol_version() -> Seq<char> {
    "2025-06-18"@
}

/// The longest request line, in bytes and without its newline.
pub const MAX_LINE_BYTES: u64 = 8388608;

/// The version that the server reports of itself.
pub open spec fn server_version() -> Seq<char> {
    "0.1.0"@
}

/// `{"jsonrpc": "2.0", "id": id, "result": result}`.
pub open spec fn ok_reply_view(id: JsonView, result: JsonView) -> JsonView {
    JsonView::object().with("jsonrpc"@, JsonView::Str("2.0"@)).with("id"@, id).with(
        "result"@,
        result,
    )
}

/// `{"jsonrpc": "2.0", "id": id, "error": {"code": code, "message": message}}`.
pub open spec fn error_reply_view(id: JsonView, code: int, message: Seq<char>) -> JsonView {
    JsonView::object().with("jsonrpc"@, JsonView::Str("2.0"@)).with("id"@, id).with(
        "error"@,
        JsonView::object().with("code"@, JsonView::integer(code)).with(
            "message"@,
            JsonView::Str(message),
        ),
    )
}

/// A reply that carries a result.
pub fn ok_reply(id: Json, result: Json) -> (r: Json)
    ensures
        r@ == ok_reply_view(id@, result@),
{
    Json::object().with("jsonrpc", Json::string("2.0")).with("id", id).with("result", result)
}

/// A reply that carries an error.
pub fn error_reply(id: Json, code: i64, message: &str) -> (r: Json)
    ensures
        r@ == error_reply_view(id@, code as int, message@),
{
    let error = Json::object().with("code", Json::integer(code)).with(
        "message",
        Json::string(message),
    );
    Json::object().with("jsonrpc", Json::string("2.0")).with("id", id).with("error", error)
}

/// What `initialize` answers with: the revision that the server implements, whatever the client
/// asked for.
pub open spec fn initialize_result_view() -> JsonView {
    JsonView::object().with("protocolVersion"@, JsonView::Str(protocol_version())).with(
        "capabilities"@,
        JsonView::object().with("tools"@, JsonView::object()),
    ).with(
        "serverInfo"@,
        JsonView::object().with("name"@, JsonView::Str("webpilot"@)).with(
            "version"@,
            JsonView::Str(server_version()),
        ),
    )
}

/// What `initialize` answers with.
pub fn initialize_result() -> (r: Json)
    ensures
        r@ == initialize_result_view(),
{
    Json::object().with("protocolVersion", Json::string("2025-06-18")).with(
        "capabilities",
        Json::object().with("tools", Json::object()),
    ).with(
        "serverInfo",
        Json::object().with("name", Json::string("webpilot")).with("version", Json::string("0.1.0")),
    )
}

/// Why the parameters of a `tools/call` are malformed, where they are.
pub open spec fn param_error(params: JsonView) -> Option<Seq<char>> {
    if params.get_str("name"@) is None {
        Some("invalid params: `name` must be a string"@)
    } else if params.get("arguments"@) is Some && !(params.get("arguments"@)->0 is Object) {
        Some("invalid params: `arguments` must be an object"@)
    } else {
        None
    }
}

/// Why the parameters of a `tools/call` are malformed, where they are: `name` must be a string
/// and `arguments`, where there are any, an object.
pub fn tool_call_param_error(params: &Json) -> (r: Option<&'static str>)
    ensures
        r is Some <==> param_error(params@) is Some,
        r is Some ==> r->0@ == param_error(params@)->0,
{
    if params.get_str("name").is_none() {
        return Some("invalid params: `name` must be a string");
    }
    if let Some(a) = params.get("arguments") {
        if !a.is_object() {
            return Some("invalid params: `arguments` must be an object");
        }
    }
    None
}

/// What the server does with a message: answer it, stay silent, or run a tool and answer with
/// what came of it.
pub enum Step {
    Reply(Json),
    Silent,
    Call { id: Json, name: String, args: Json },
}

/// What a step is.
pub enum StepView {
    Reply(JsonView),
    Silent,
    Call(JsonView, Seq<char>, JsonView),
}

impl View for Step {
    type V = StepView;

    open spec fn view(&self) -> StepView {
        match self {
            Step::Reply(r) => StepView::Reply(r@),
            Step::Silent => StepView::Silent,
            Step::Call { id, name, args } => StepView::Call(id@, name@, args@),
        }
    }
}

/// Whether a message is a well-formed JSON-RPC 2.0 call: no batch, the version, a string method.
pub open spec fn well_formed(msg: JsonView) -> bool {
    !(msg is Array) && msg.get_str("jsonrpc"@) == Some("2.0"@) && msg.get_str("method"@) is Some
}

/// Whether a message is a request: a well-formed call that carries an id, `null` included.
pub open spec fn is_request(msg: JsonView) -> bool {
    well_formed(msg) && msg.get("id"@) is Some
}

/// The step that a `tools/call` leads to.
pub open spec fn tool_call_step(id: JsonView, params: JsonView) -> StepView {
    match param_error(params) {
        Some(reason) => StepView::Reply(error_reply_view(id, -32602, reason)),
        None => {
            let name = params.get_str("name"@)->0;
            if !tools::advertised(name) {
                StepView::Reply(error_reply_view(id, -32602, "unknown tool: "@ + name))
            } else {
                StepView::Call(
                    id,
                    name,
                    match params.get("arguments"@) {
                        Some(args) => args,
                        None => JsonView::object(),
                    },
                )
            }
        },
    }
}

/// The step that a request leads to.
pub open spec fn request_step(
    initialized: bool,
    id: JsonView,
    method: Seq<char>,
    params: JsonView,
) -> StepView {
    if method == "initialize"@ {
        StepView::Reply(ok_reply_view(id, initialize_result_view()))
    } else if method == "ping"@ {
        StepView::Reply(ok_reply_view(id, JsonView::object()))
    } else if (method == "tools/list"@ || method == "tools/call"@) && !initialized {
        StepView::Reply(
            error_reply_view(id, -32002, "server not initialized — send `initialize` first"@),
        )
    } else if method == "tools/list"@ {
        StepView::Reply(
            ok_reply_view(id, JsonView::object().with("tools"@, JsonView::Array(tools::tool_list()))),
        )
    } else if method == "tools/call"@ {
        tool_call_step(id, params)
    } else {
        StepView::Reply(error_reply_view(id, -32601, "method not found: "@ + method))
    }
}

/// The step that a message leads to.
pub open spec fn message_step(initialized: bool, msg: JsonView) -> StepView {
    if msg is Array {
        StepView::Reply(
            error_reply_view(
                JsonView::Null,
                -32600,
                "invalid request: JSON-RPC batches are not supported"@,
            ),
        )
    } else if msg.get_str("jsonrpc"@) != Some("2.0"@) {
        StepView::Reply(
            error_reply_view(
                msg.get_or_null("id"@),
                -32600,
                "invalid request: jsonrpc must be \"2.0\""@,
            ),
        )
    } else if msg.get_str("method"@) is None {
        StepView::Reply(
            error_reply_view(
                msg.get_or_null("id"@),
                -32600,
                "invalid request: missing method"@,
            ),
        )
    } else {
        match msg.get("id"@) {
            None => StepView::Silent,
            Some(id) => request_step(
                initialized,
                id,
                msg.get_str("method"@)->0,
                msg.get_or_null("params"@),
            ),
        }
    }
}

/// Whether the server counts as initialized once it has handled a message.
pub open spec fn armed_by(initialized: bool, msg: JsonView) -> bool {
    initialized || (is_request(msg) && msg.get_str("method"@) == Some("initialize"@))
}

/// Decides a `tools/call`: malformed parameters and unknown names are answered before anything
/// is opened; any other call is handed on.
pub fn decide_tool_call(id: Json, params: &Json) -> (r: Step)
    ensures
        r@ == tool_call_step(id@, params@),
{
    match tool_call_param_error(params) {
        Some(reason) => Step::Reply(error_reply(id, -32602, reason)),
        None => match params.get_str("name") {
            Some(name) => {
                if !tool_exists(name) {
                    let message = "unknown tool: ".to_owned().concat(name);
                    Step::Reply(error_reply(id, -32602, message.as_str()))
                } else {
                    let args = match params.get("arguments") {
                        Some(args) => args.copy(),
                        None => Json::object(),
                    };
                    Step::Call { id, name: name.to_owned(), args }
                }
            },
            None => Step::Silent,
        },
    }
}

/// Routes one message. Only a well-formed message without an id goes unanswered.
pub fn handle_message(initialized: &mut bool, msg: &Json) -> (r: Step)
    ensures
        r@ == message_step(*old(initialized), msg@),
        *final(initialized) == armed_by(*old(initialized), msg@),
{
    if msg.as_array().is_some() {
        return Step::Reply(
            error_reply(
                Json::Null,
                -32600,
                "invalid request: JSON-RPC batches are not supported",
            ),
        );
    }
    let versioned = match msg.get_str("jsonrpc") {
        Some(v) => same(v, "2.0"),
        None => false,
    };
    if !versioned {
        return Step::Reply(
            error_reply(
                msg.get_or_null("id"),
                -32600,
                "invalid request: jsonrpc must be \"2.0\"",
            ),
        );
    }
    let method = match msg.get_str("method") {
        Some(m) => m,
        None => {
            return Step::Reply(
                error_reply(msg.get_or_null("id"), -32600, "invalid request: missing method"),
            );
        },
    };
    let id = match msg.get("id") {
        Some(id) => id.copy(),
        None => {
            return Step::Silent;
        },
    };
    if same(method, "initialize") {
        *initialized = true;
        return Step::Reply(ok_reply(id, initialize_result()));
    }
    if same(method, "ping") {
        return Step::Reply(ok_reply(id, Json::object()));
    }
    let listing = same(method, "tools/list");
    let calling = same(method, "tools/call");
    if (listing || calling) && !*initialized {
        return Step::Reply(
            error_reply(id, -32002, "server not initialized — send `initialize` first"),
        );
    }
    if listing {
        return Step::Reply(ok_reply(id, Json::object().with("tools", tool_specs())));
    }
    if calling {
        let params = msg.get_or_null("params");
        return decide_tool_call(id, &params);
    }
    let message = "method not found: ".to_owned().concat(method);
    Step::Reply(error_reply(id, -32601, message.as_str()))
}

/// The step that a line leads to.
pub open spec fn line_step(initialized: bool, line: Seq<char>) -> StepView {
    match json::parsed_json(line) {
        Ok(msg) => message_step(initialized, msg),
        Err(_) => StepView::Reply(error_reply_view(JsonView::Null, -32700, "parse error"@)),
    }
}

/// Routes one line. A line that is no JSON is answered, with a null id.
pub fn handle_line(initialized: &mut bool, line: &str) -> (r: Step)
    ensures
        r@ == line_step(*old(initialized), line@),
        *final(initialized) == (match json::parsed_json(line@) {
            Ok(msg) => armed_by(*old(initialized), msg),
            Err(_) => *old(initialized),
        }),
{
    match Json::parse(line) {
        Ok(msg) => handle_message(initialized, &msg),
        Err(_) => Step::Reply(error_reply(Json::Null, -32700, "parse error")),
    }
}

/// One message of the input: a usable line, one of the malformed inputs, or the end.
#[derive(Debug, PartialEq, Eq)]
pub enum Frame {
    Line(String),
    OverCap,
    InvalidUtf8,
    Eof,
}

/// What a frame is.
pub enum FrameView {
    Line(Seq<char>),
    OverCap,
    InvalidUtf8,
    Eof,
}

impl View for Frame {
    type V = FrameView;

    open spec fn view(&self) -> FrameView {
        match self {
            Frame::Line(s) => FrameView::Line(s@),
            Frame::OverCap => FrameView::OverCap,
            Frame::InvalidUtf8 => FrameView::InvalidUtf8,
            Frame::Eof => FrameView::Eof,
        }
    }
}

/// The length of the first line, its newline included; all of the input where there is none.
pub open spec fn line_end(input: Seq<u8>) -> nat
    decreases input.len(),
{
    if input.len() == 0 {
        0
    } else if input[0] == 10 {
        1
    } else {
        1 + line_end(input.drop_first())
    }
}

/// The length of the first line without its newline.
pub open spec fn payload_len(input: Seq<u8>) -> nat {
    if line_end(input) > 0 && input[line_end(input) - 1] == 10 {
        (line_end(input) - 1) as nat
    } else {
        line_end(input)
    }
}

/// The first frame of the input: its first line, where that is UTF-8 and no longer than `max`.
pub open spec fn frame_of(input: Seq<u8>, max: u64) -> FrameView {
    if input.len() == 0 {
        FrameView::Eof
    } else if payload_len(input) > max {
        FrameView::OverCap
    } else if vstd::utf8::valid_utf8(input.take(line_end(input) as int)) {
        FrameView::Line(vstd::utf8::decode_utf8(input.take(line_end(input) as int)))
    } else {
        FrameView::InvalidUtf8
    }
}

/// The first line ends at its first newline, or where the input ends.
pub proof fn lemma_line_end(input: Seq<u8>, at: int)
    requires
        0 <= at <= input.len(),
        forall|i: int| 0 <= i < at ==> input[i] != 10,
        at < input.len() ==> input[at] == 10,
    ensures
        line_end(input) == if at < input.len() {
            at + 1
        } else {
            at
        },
    decreases at,
{
    if at > 0 {
        assert forall|i: int| 0 <= i < at - 1 implies input.drop_first()[i] != 10 by {
            assert(input[i + 1] != 10);
        }
        lemma_line_end(input.drop_first(), at - 1);
    }
}

/// The number of bytes up to the first newline.
fn newline_at(input: &[u8]) -> (r: usize)
    ensures
        r <= input@.len(),
        forall|i: int| 0 <= i < r ==> input@[i] != 10,
        r < input@.len() ==> input@[r as int] == 10,
{
    let mut at: usize = 0;
    while at < input.len() && input[at] != 10
        invariant
            at <= input@.len(),
            forall|i: int| 0 <= i < at ==> input@[i] != 10,
        decreases input@.len() - at,
    {
        at += 1;
    }
    at
}

/// Reads the first frame of the input, and says how many bytes of the input it took. A line over
/// the cap is taken through its newline, so that the next frame starts on a line of its own.
pub fn read_frame(input: &[u8], max: u64) -> (r: (Frame, usize))
    ensures
        r.0@ == frame_of(input@, max),
        r.1 == line_end(input@),
        r.1 <= input@.len(),
{
    let at = newline_at(input);
    proof {
        lemma_line_end(input@, at as int);
    }
    if input.len() == 0 {
        return (Frame::Eof, 0);
    }
    let end: usize = if at < input.len() {
        at + 1
    } else {
        at
    };
    if at as u64 > max {
        return (Frame::OverCap, end);
    }
    let mut line: Vec<u8> = Vec::new();
    for i in 0..end
        invariant
            end <= input@.len(),
            line@ == input@.take(i as int),
    {
        line.push(input[i]);
        assert(line@ =~= input@.take(i + 1));
    }
    match utf8_text(line) {
        Ok(text) => (Frame::Line(text), end),
        Err(_) => (Frame::InvalidUtf8, end),
    }
}

/// Whether some bytes hold the end of a line.
pub open spec fn ends_a_line(bytes: Seq<u8>) -> bool {
    line_end(bytes) > 0 && bytes[line_end(bytes) - 1] == 10
}

/// The part of a line that has arrived so far. Of a line over the cap no byte is kept.
pub struct PartialLine {
    pub held: Vec<u8>,
    pub over: bool,
}

impl PartialLine {
    /// Whether this is what is kept of `line`, the part of a line that has arrived.
    pub open spec fn keeps(&self, line: Seq<u8>, max: u64) -> bool {
        &&& forall|i: int| 0 <= i < line.len() ==> line[i] != 10
        &&& if line.len() > max {
            self.over && self.held@.len() == 0
        } else {
            !self.over && self.held@ == line
        }
    }

    /// Nothing of a line yet.
    pub fn start() -> (r: PartialLine)
        ensures
            forall|max: u64| r.keeps(Seq::empty(), max),
    {
        PartialLine { held: Vec::new(), over: false }
    }

    /// Takes the bytes that arrived up to the end of the line, and says how many they were. Where
    /// the line has ended its frame comes out, the one that the line would give if it had arrived
    /// at once, and the next line starts.
    pub fn feed(&mut self, chunk: &[u8], max: u64) -> (r: (Option<Frame>, usize))
        ensures
            r.1 == line_end(chunk@),
            r.1 <= chunk@.len(),
            r.0 is Some <==> ends_a_line(chunk@),
            forall|line: Seq<u8>| #[trigger]
                old(self).keeps(line, max) ==> if ends_a_line(chunk@) {
                    &&& r.0->0@ == frame_of(line + chunk@.take(r.1 as int), max)
                    &&& final(self).keeps(Seq::empty(), max)
                } else {
                    final(self).keeps(line + chunk@, max)
                },
    {
        let at = newline_at(chunk);
        proof {
            lemma_line_end(chunk@, at as int);
        }
        for i in 0..at
            invariant
                at <= chunk@.len(),
                forall|k: int| 0 <= k < at ==> chunk@[k] != 10,
                forall|line: Seq<u8>| #[trigger]
                    old(self).keeps(line, max) ==> self.keeps(line + chunk@.take(i as int), max),
        {
            let ghost before = *self;
            if !self.over {
                if self.held.len() as u64 >= max {
                    self.over = true;
                    self.held.clear();
                } else {
                    self.held.push(chunk[i]);
                }
            }
            proof {
                assert forall|line: Seq<u8>| #[trigger] old(self).keeps(line, max) implies self.keeps(
                    line + chunk@.take(i + 1),
                    max,
                ) by {
                    assert(before.keeps(line + chunk@.take(i as int), max));
                    assert(line + chunk@.take(i + 1) =~= (line + chunk@.take(i as int)).push(
                        chunk@[i as int],
                    ));
                }
            }
        }
        if at == chunk.len() {
            assert(chunk@.take(at as int) =~= chunk@);
            return (None, at);
        }
        proof {
            assert forall|line: Seq<u8>| #[trigger] old(self).keeps(line, max) implies frame_of(
                line + chunk@.take(at + 1),
                max,
            ) == self.closing() by {
                let all = line + chunk@.take(at as int);
                let whole = line + chunk@.take(at + 1);
                assert(self.keeps(all, max));
                assert(whole =~= all.push(10));
                lemma_line_end(whole, all.len() as int);
                assert(whole.take(whole.len() as int) =~= whole);
            }
        }
        let frame = self.close();
        (Some(frame), at + 1)
    }

    /// The frame of a line whose newline has come.
    pub open spec fn closing(&self) -> FrameView {
        let line = self.held@.push(10);
        if self.over {
            FrameView::OverCap
        } else if vstd::utf8::valid_utf8(line) {
            FrameView::Line(vstd::utf8::decode_utf8(line))
        } else {
            FrameView::InvalidUtf8
        }
    }

    /// Ends a line whose newline has come.
    fn close(&mut self) -> (r: Frame)
        ensures
            forall|max: u64| final(self).keeps(Seq::empty(), max),
            r@ == old(self).closing(),
    {
        let mut line: Vec<u8> = Vec::new();
        std::mem::swap(&mut line, &mut self.held);
        let over = self.over;
        self.over = false;
        if over {
            return Frame::OverCap;
        }
        line.push(10);
        match utf8_text(line) {
            Ok(text) => Frame::Line(text),
            Err(_) => Frame::InvalidUtf8,
        }
    }

    /// The frame that the end of the input leaves: that of the unterminated line, if there is one.
    pub fn finish(&mut self, max: u64) -> (r: Frame)
        ensures
            forall|line: Seq<u8>| #[trigger]
                old(self).keeps(line, max) ==> r@ == frame_of(line, max) && final(self).keeps(
                    Seq::empty(),
                    max,
                ),
    {
        proof {
            assert forall|line: Seq<u8>| #[trigger] old(self).keeps(line, max) implies line_end(line)
                == line.len() by {
                lemma_line_end(line, line.len() as int);
            }
            assert forall|line: Seq<u8>| #[trigger] old(self).keeps(line, max) implies line.take(
                line.len() as int,
            ) == line by {
                assert(line.take(line.len() as int) =~= line);
            }
        }
        let mut line: Vec<u8> = Vec::new();
        std::mem::swap(&mut line, &mut self.held);
        let over = self.over;
        self.over = false;
        if over {
            return Frame::OverCap;
        }
        if line.len() == 0 {
            return Frame::Eof;
        }
        match utf8_text(line) {
            Ok(text) => Frame::Line(text),
            Err(_) => Frame::InvalidUtf8,
        }
    }
}

/// What the server does with a frame. `None` ends the session.
pub open spec fn frame_step(initialized: bool, frame: FrameView) -> Option<StepView> {
    match frame {
        FrameView::Eof => None,
        FrameView::Line(line) => if text::trimmed(line).len() == 0 {
            Some(StepView::Silent)
        } else {
            Some(line_step(initialized, line))
        },
        FrameView::OverCap => Some(
            StepView::Reply(
                error_reply_view(JsonView::Null, -32700, "request exceeds size limit"@),
            ),
        ),
        FrameView::InvalidUtf8 => Some(
            StepView::Reply(
                error_reply_view(JsonView::Null, -32700, "parse error: invalid UTF-8"@),
            ),
        ),
    }
}

/// Whether the server counts as initialized once it has handled a frame.
pub open spec fn armed_by_frame(initialized: bool, frame: FrameView) -> bool {
    match frame {
        FrameView::Line(line) => if text::trimmed(line).len() == 0 {
            initialized
        } else {
            match json::parsed_json(line) {
                Ok(msg) => armed_by(initialized, msg),
                Err(_) => initialized,
            }
        },
        _ => initialized,
    }
}

/// Decides what follows a frame: the end of the session, nothing, a reply, or a tool call.
pub fn handle_frame(initialized: &mut bool, frame: &Frame) -> (r: Option<Step>)
    ensures
        r is Some <==> frame_step(*old(initialized), frame@) is Some,
        r is Some ==> r->0@ == frame_step(*old(initialized), frame@)->0,
        *final(initialized) == armed_by_frame(*old(initialized), frame@),
{
    match frame {
        Frame::Eof => None,
        Frame::Line(line) => {
            if is_blank(line.as_str()) {
                Some(Step::Silent)
            } else {
                Some(handle_line(initialized, line.as_str()))
            }
        },
        Frame::OverCap => Some(
            Step::Reply(error_reply(Json::Null, -32700, "request exceeds size limit")),
        ),
        Frame::InvalidUtf8 => Some(
            Step::Reply(error_reply(Json::Null, -32700, "parse error: invalid UTF-8")),
        ),
    }
}

/// The reply where running a tool panicked: the id is lost, the session goes on.
pub fn panic_reply() -> (r: Json)
    ensures
        r@ == error_reply_view(JsonView::Null, -32603, "internal error: tool dispatch panicked"@),
{
    error_reply(Json::Null, -32603, "internal error: tool dispatch panicked")
}

/// A reply as the line that goes out.
pub fn reply_line(reply: &Json) -> (r: String)
    ensures
        r@ == json::compact_json(json::settled(reply@)).push('\n'),
{
    let mut out = reply.to_text();
    out.push('\n');
    out
}

/// What a tool does with the browser.
pub enum ToolPlan {
    Navigate { url: String },
    Snapshot,
    Screenshot,
    Act { action: Action },
    Eval { code: String },
    Wait { condition: WaitCondition, timeout_ms: u64 },
}

/// What a plan is.
pub enum ToolPlanView {
    Navigate(Seq<char>),
    Snapshot,
    Screenshot,
    Act(ActionView),
    Eval(Seq<char>),
    Wait(ConditionView, u64),
}

impl View for ToolPlan {
    type V = ToolPlanView;

    open spec fn view(&self) -> ToolPlanView {
        match self {
            ToolPlan::Navigate { url } => ToolPlanView::Navigate(url@),
            ToolPlan::Snapshot => ToolPlanView::Snapshot,
            ToolPlan::Screenshot => ToolPlanView::Screenshot,
            ToolPlan::Act { action } => ToolPlanView::Act(action@),
            ToolPlan::Eval { code } => ToolPlanView::Eval(code@),
            ToolPlan::Wait { condition, timeout_ms } => ToolPlanView::Wait(
                condition@,
                *timeout_ms,
            ),
        }
    }
}

/// The string argument `key`, or the error for its absence.
pub open spec fn str_arg_view(args: JsonView, key: Seq<char>) -> Result<Seq<char>, ErrorView> {
    match args.get_str(key) {
        Some(v) => Ok(v),
        None => Err(ErrorView::InvalidArgument("missing required string argument: "@ + key)),
    }
}

/// The string argument `key`.
pub fn str_arg(args: &Json, key: &str) -> (r: Result<String, WebPilotError>)
    ensures
        error::outcome(r) == str_arg_view(args@, key@),
{
    match args.get_str(key) {
        Some(v) => Ok(v.to_owned()),
        None => Err(
            WebPilotError::InvalidArgument {
                detail: "missing required string argument: ".to_owned().concat(key),
            },
        ),
    }
}

/// The kind of the action that an acting tool performs.
pub open spec fn action_kind(tool: Seq<char>) -> Option<ActionKind> {
    if tool == "browser_click"@ {
        Some(ActionKind::Click)
    } else if tool == "browser_type"@ {
        Some(ActionKind::Type)
    } else if tool == "browser_press_key"@ {
        Some(ActionKind::KeyPress)
    } else if tool == "browser_scroll"@ {
        Some(ActionKind::Scroll)
    } else if tool == "browser_select"@ {
        Some(ActionKind::Select)
    } else {
        None
    }
}

/// The action that a tool's arguments describe, or the error that says what is wrong with them.
pub open spec fn build_action_view(
    tool: Seq<char>,
    kind: ActionKind,
    args: JsonView,
) -> Result<ActionView, ErrorView> {
    match action::action_of(kind, args) {
        Ok(a) => Ok(a),
        Err(e) => Err(
            ErrorView::InvalidArgument("invalid arguments for "@ + tool + ": "@ + e),
        ),
    }
}

fn kind_of(tool: &str) -> (r: Option<ActionKind>)
    ensures
        r == action_kind(tool@),
{
    if same(tool, "browser_click") {
        Some(ActionKind::Click)
    } else if same(tool, "browser_type") {
        Some(ActionKind::Type)
    } else if same(tool, "browser_press_key") {
        Some(ActionKind::KeyPress)
    } else if same(tool, "browser_scroll") {
        Some(ActionKind::Scroll)
    } else if same(tool, "browser_select") {
        Some(ActionKind::Select)
    } else {
        None
    }
}

/// The action that a tool's arguments describe. Only for the acting tools.
pub fn build_action(tool: &str, args: &Json) -> (r: Result<Action, WebPilotError>)
    requires
        action_kind(tool@) is Some,
    ensures
        error::outcome(r) == build_action_view(tool@, action_kind(tool@)->0, args@),
{
    let read = match kind_of(tool) {
        Some(kind) => Action::read(kind, args),
        None => Err(String::new()),
    };
    match read {
        Ok(a) => Ok(a),
        Err(e) => Err(
            WebPilotError::InvalidArgument {
                detail: "invalid arguments for ".to_owned().concat(tool).concat(": ").concat(
                    e.as_str(),
                ),
            },
        ),
    }
}

/// How long a wait may take: a positive number of milliseconds, ten seconds where none is given.
pub open spec fn timeout_arg_view(args: JsonView) -> Result<u64, ErrorView> {
    match args.get("timeout_ms"@) {
        None => Ok(10000),
        Some(JsonView::Null) => Ok(10000),
        Some(v) => match v.as_u64() {
            Some(n) => if n > 0 {
                Ok(n)
            } else {
                Err(
                    ErrorView::InvalidArgument(
                        "timeout_ms must be a positive integer (milliseconds)"@,
                    ),
                )
            },
            None => Err(
                ErrorView::InvalidArgument("timeout_ms must be a positive integer (milliseconds)"@),
            ),
        },
    }
}

fn timeout_arg(args: &Json) -> (r: Result<u64, WebPilotError>)
    ensures
        r is Ok <==> timeout_arg_view(args@) is Ok,
        r is Ok ==> r->Ok_0 == timeout_arg_view(args@)->Ok_0,
        r is Err ==> r->Err_0@ == timeout_arg_view(args@)->Err_0,
{
    match args.get("timeout_ms") {
        None => Ok(10000),
        Some(Json::Null) => Ok(10000),
        Some(v) => {
            if let Some(n) = v.as_u64() {
                if n > 0 {
                    return Ok(n);
                }
            }
            Err(WebPilotError::invalid("timeout_ms must be a positive integer (milliseconds)"))
        },
    }
}

/// What a wait is for, or the error that says what is wrong with it.
pub open spec fn wait_condition_view(args: JsonView) -> Result<ConditionView, ErrorView> {
    match wait::condition_of(args) {
        Ok(c) => Ok(c),
        Err(e) => Err(ErrorView::InvalidArgument("invalid wait condition: "@ + e)),
    }
}

fn wait_condition(args: &Json) -> (r: Result<WaitCondition, WebPilotError>)
    ensures
        error::outcome(r) == wait_condition_view(args@),
{
    match WaitCondition::read(args) {
        Ok(c) => Ok(c),
        Err(e) => Err(
            WebPilotError::InvalidArgument {
                detail: "invalid wait condition: ".to_owned().concat(e.as_str()),
            },
        ),
    }
}

/// The plan that a tool call leads to.
pub open spec fn tool_plan(name: Seq<char>, args: JsonView) -> Result<ToolPlanView, ErrorView> {
    if name == "browser_navigate"@ {
        match str_arg_view(args, "url"@) {
            Ok(url) => Ok(ToolPlanView::Navigate(url)),
            Err(e) => Err(e),
        }
    } else if name == "browser_snapshot"@ {
        Ok(ToolPlanView::Snapshot)
    } else if name == "browser_screenshot"@ {
        Ok(ToolPlanView::Screenshot)
    } else if action_kind(name) is Some {
        match build_action_view(name, action_kind(name)->0, args) {
            Ok(a) => Ok(ToolPlanView::Act(a)),
            Err(e) => Err(e),
        }
    } else if name == "browser_eval"@ {
        match str_arg_view(args, "code"@) {
            Ok(code) => Ok(ToolPlanView::Eval(code)),
            Err(e) => Err(e),
        }
    } else if name == "browser_wait"@ {
        match timeout_arg_view(args) {
            Ok(ms) => match wait_condition_view(args) {
                Ok(condition) => Ok(ToolPlanView::Wait(condition, ms)),
                Err(e) => Err(e),
            },
            Err(e) => Err(e),
        }
    } else {
        Err(ErrorView::InvalidArgument("unknown tool: "@ + name))
    }
}

/// Decides what a tool does, from its name and arguments.
pub fn call_tool(name: &str, args: &Json) -> (r: Result<ToolPlan, WebPilotError>)
    ensures
        error::outcome(r) == tool_plan(name@, args@),
{
    if same(name, "browser_navigate") {
        match str_arg(args, "url") {
            Ok(url) => Ok(ToolPlan::Navigate { url }),
            Err(e) => Err(e),
        }
    } else if same(name, "browser_snapshot") {
        Ok(ToolPlan::Snapshot)
    } else if same(name, "browser_screenshot") {
        Ok(ToolPlan::Screenshot)
    } else if kind_of(name).is_some() {
        match build_action(name, args) {
            Ok(action) => Ok(ToolPlan::Act { action }),
            Err(e) => Err(e),
        }
    } else if same(name, "browser_eval") {
        match str_arg(args, "code") {
            Ok(code) => Ok(ToolPlan::Eval { code }),
            Err(e) => Err(e),
        }
    } else if same(name, "browser_wait") {
        match timeout_arg(args) {
            Ok(timeout_ms) => match wait_condition(args) {
                Ok(condition) => Ok(ToolPlan::Wait { condition, timeout_ms }),
                Err(e) => Err(e),
            },
            Err(e) => Err(e),
        }
    } else {
        Err(WebPilotError::InvalidArgument { detail: "unknown tool: ".to_owned().concat(name) })
    }
}

/// A failed tool: the exit code and the text of its error, and the error as it goes on the wire.
pub struct ToolFailure {
    pub exit_code: i32,
    pub text: String,
    pub wire: Json,
}

/// A text block of a tool's result.
pub open spec fn text_block_view(text: Seq<char>) -> JsonView {
    JsonView::object().with("type"@, JsonView::Str("text"@)).with("text"@, JsonView::Str(text))
}

/// A text block of a tool's result.
pub fn text_block(text: &str) -> (r: Json)
    ensures
        r@ == text_block_view(text@),
{
    Json::object().with("type", Json::string("text")).with("text", Json::string(text))
}

/// The reply that a tool's outcome makes. A failure is a result that says so, not an error of the
/// request: its text is for the model, its wire form for a program.
pub open spec fn tool_reply_view(
    id: JsonView,
    outcome: Result<Seq<JsonView>, (Seq<char>, JsonView)>,
) -> JsonView {
    ok_reply_view(
        id,
        match outcome {
            Ok(content) => JsonView::object().with("content"@, JsonView::Array(content)).with(
                "isError"@,
                JsonView::Bool(false),
            ),
            Err((text, wire)) => JsonView::object().with(
                "content"@,
                JsonView::array().item(text_block_view(text)),
            ).with("isError"@, JsonView::Bool(true)).with("structuredContent"@, wire),
        },
    )
}

/// What a tool came to, as the reply shows it.
pub open spec fn tool_outcome(outcome: Result<Vec<Json>, ToolFailure>) -> Result<
    Seq<JsonView>,
    (Seq<char>, JsonView),
> {
    match outcome {
        Ok(content) => Ok(json::views(content@)),
        Err(e) => Err((e.text@, e.wire@)),
    }
}

/// Whether a tool's outcome makes the connection to the browser unusable: a failure of the
/// infrastructure, which exits with code 3.
pub fn drops_transport(outcome: &Result<Vec<Json>, ToolFailure>) -> (r: bool)
    ensures
        r == (outcome is Err && outcome->Err_0.exit_code == 3),
{
    match outcome {
        Ok(_) => false,
        Err(e) => e.exit_code == 3,
    }
}

/// The reply that a tool's outcome makes.
pub fn tool_call_reply(id: Json, outcome: Result<Vec<Json>, ToolFailure>) -> (r: Json)
    ensures
        r@ == tool_reply_view(id@, tool_outcome(outcome)),
{
    let result = match outcome {
        Ok(content) => Json::object().with("content", Json::Array(content)).with(
            "isError",
            Json::Bool(false),
        ),
        Err(e) => Json::object().with(
            "content",
            Json::array().item(text_block(e.text.as_str())),
        ).with("isError", Json::Bool(true)).with("structuredContent", e.wire),
    };
    ok_reply(id, result)
}

/// Where a screenshot was saved, or why there is none.
pub open spec fn screenshot_path_view(output: OutputView) -> Result<Seq<char>, ErrorView> {
    match output {
        OutputView::Data(data, _) => match data.get_str("screenshot_path"@) {
            Some(path) => Ok(path),
            None => Err(
                ErrorView::Other(
                    match data.get_str("screenshot_error"@) {
                        Some(detail) => detail,
                        None => "screenshot produced no artefact"@,
                    },
                ),
            ),
        },
        _ => Err(ErrorView::Other("screenshot produced no artefact"@)),
    }
}

/// Where a screenshot was saved, or why there is none.
pub fn screenshot_path(output: &CommandOutput) -> (r: Result<String, WebPilotError>)
    ensures
        error::outcome(r) == screenshot_path_view(output@),
{
    match output {
        CommandOutput::Data { json: data, .. } => match data.get_str("screenshot_path") {
            Some(path) => Ok(path.to_owned()),
            None => match data.get_str("screenshot_error") {
                Some(detail) => Err(WebPilotError::other(detail)),
                None => Err(WebPilotError::other("screenshot produced no artefact")),
            },
        },
        _ => Err(WebPilotError::other("screenshot produced no artefact")),
    }
}

/// The blocks that show a screenshot: the image itself, and the text that identifies its page.
pub fn screenshot_content(bytes: &[u8], lines: &str) -> (r: Vec<Json>)
    ensures
        json::views(r@) == seq![
            JsonView::object().with("type"@, JsonView::Str("image"@)).with(
                "data"@,
                JsonView::Str(codec::base64_text(bytes@)),
            ).with("mimeType"@, JsonView::Str("image/png"@)),
            text_block_view(lines@),
        ],
{
    let mut blocks: Vec<Json> = Vec::new();
    blocks.push(
        Json::object().with("type", Json::string("image")).with(
            "data",
            Json::Str(base64_encode(bytes)),
        ).with("mimeType", Json::string("image/png")),
    );
    blocks.push(text_block(lines));
    blocks
}

/// Before `initialize`, a request for the tools is refused with -32002 and changes nothing.
pub proof fn law_tools_wait_for_initialize(msg: JsonView)
    requires
        is_request(msg),
        msg.get_str("method"@) == Some("tools/list"@) || msg.get_str("method"@) == Some(
            "tools/call"@,
        ),
    ensures
        message_step(false, msg) == StepView::Reply(
            error_reply_view(
                msg.get("id"@)->0,
                -32002,
                "server not initialized — send `initialize` first"@,
            ),
        ),
        !armed_by(false, msg),
{
    reveal_strlit("tools/list");
    reveal_strlit("tools/call");
    reveal_strlit("initialize");
    reveal_strlit("ping");
    assert("tools/list"@[0] == 't' && "tools/call"@[0] == 't' && "initialize"@[0] == 'i'
        && "ping"@[0] == 'p');
}

/// `initialize` arms the server, and nothing disarms it.
pub proof fn law_initialize_arms(initialized: bool, msg: JsonView)
    ensures
        initialized ==> armed_by(initialized, msg),
        is_request(msg) && msg.get_str("method"@) == Some("initialize"@) ==> armed_by(
            initialized,
            msg,
        ) && message_step(initialized, msg) == StepView::Reply(
            ok_reply_view(msg.get("id"@)->0, initialize_result_view()),
        ),
{
}

/// A message goes unanswered exactly where it is well formed and carries no id: no malformed
/// message is dropped, and no request.
pub proof fn law_only_notifications_are_silent(initialized: bool, msg: JsonView)
    ensures
        (message_step(initialized, msg) == StepView::Silent) == (well_formed(msg) && msg.get("id"@)
            is None),
{
}

/// Every answer to a request carries the request's id, and a tool call keeps it.
pub proof fn law_answers_carry_the_id(initialized: bool, msg: JsonView)
    requires
        is_request(msg),
    ensures
        match message_step(initialized, msg) {
            StepView::Reply(reply) => reply.get("id"@) == msg.get("id"@),
            StepView::Call(id, _, _) => Some(id) == msg.get("id"@),
            StepView::Silent => false,
        },
        forall|outcome: Result<Seq<JsonView>, (Seq<char>, JsonView)>|
            (#[trigger] tool_reply_view(msg.get("id"@)->0, outcome)).get("id"@) == msg.get("id"@),
{
    reveal_strlit("id");
    reveal_strlit("result");
    reveal_strlit("error");
    assert("id"@.len() != "result"@.len() && "id"@.len() != "error"@.len());
}

/// A tool is run only for a request on an initialized server, only under an advertised name, and
/// only with an object of arguments.
pub proof fn law_calls_are_checked(initialized: bool, msg: JsonView)
    ensures
        match message_step(initialized, msg) {
            StepView::Call(_, name, args) => initialized && is_request(msg) && tools::advertised(
                name,
            ) && args is Object,
            _ => true,
        },
{
}

/// The tools that can be run are the advertised ones; any other name is refused.
pub proof fn law_dispatch_is_what_is_advertised(name: Seq<char>, args: JsonView)
    ensures
        tools::advertised(name) <==> (name == "browser_navigate"@ || name == "browser_snapshot"@
            || name == "browser_screenshot"@ || action_kind(name) is Some || name
            == "browser_eval"@ || name == "browser_wait"@),
        !tools::advertised(name) ==> tool_plan(name, args) == Err::<ToolPlanView, ErrorView>(
            ErrorView::InvalidArgument("unknown tool: "@ + name),
        ),
{
    tools::law_advertised_names();
    let list = tools::tool_list();
    if tools::advertised(name) {
        let i = choose|i: int|
            0 <= i < list.len() && (#[trigger] list[i]).get_str("name"@) == Some(name);
        assert(i == 0 || i == 1 || i == 2 || i == 3 || i == 4 || i == 5 || i == 6 || i == 7 || i
            == 8 || i == 9);
    }
}

/// A frame takes the whole of its line, newline included, whatever the line holds: what follows
/// the newline is where the next frame starts.
pub proof fn law_frames_resync(line: Seq<u8>, rest: Seq<u8>)
    requires
        line.len() > 0,
        line.last() == 10,
        forall|i: int| 0 <= i < line.len() - 1 ==> line[i] != 10,
    ensures
        line_end(line + rest) == line.len(),
        (line + rest).skip(line_end(line + rest) as int) == rest,
{
    lemma_line_end(line + rest, line.len() - 1);
    assert((line + rest).skip(line.len() as int) =~= rest);
}

/// Reading makes progress: a frame of a non-empty input takes at least one byte, and only the
/// end of the input gives the last frame.
pub proof fn law_frames_progress(input: Seq<u8>, max: u64)
    ensures
        (frame_of(input, max) == FrameView::Eof) == (input.len() == 0),
        input.len() > 0 ==> line_end(input) > 0,
{
}

/// What a frame is depends on its own line alone, not on what follows it.
pub proof fn law_frames_stand_alone(line: Seq<u8>, rest: Seq<u8>, max: u64)
    requires
        line.len() > 0,
        line.last() == 10,
        forall|i: int| 0 <= i < line.len() - 1 ==> line[i] != 10,
    ensures
        frame_of(line + rest, max) == frame_of(line, max),
{
    lemma_line_end(line + rest, line.len() - 1);
    lemma_line_end(line, line.len() - 1);
    assert((line + rest).take(line.len() as int) =~= line);
    assert(line.take(line.len() as int) =~= line);
}

/// A call that is handed on is the call that was asked for: its id, the name under `params.name`,
/// and the very object under `params.arguments`, or no arguments where there are none.
pub proof fn law_calls_carry_what_was_asked(initialized: bool, msg: JsonView)
    ensures
        match message_step(initialized, msg) {
            StepView::Call(id, name, args) => {
                &&& initialized
                &&& msg.get("id"@) == Some(id)
                &&& msg.get("method"@) == Some(JsonView::Str("tools/call"@))
                &&& msg.get("params"@) matches Some(params) && {
                    &&& params.get("name"@) == Some(JsonView::Str(name))
                    &&& params.get("arguments"@) matches Some(v) ==> args == v
                    &&& params.get("arguments"@) is None ==> args == JsonView::Object(Map::empty())
                }
            },
            _ => true,
        },
{
}

/// A well-formed call of an advertised tool is handed on, on a server that is initialized.
pub proof fn law_advertised_tools_are_called(
    id: JsonView,
    name: Seq<char>,
    args: Map<Seq<char>, JsonView>,
    i: int,
    msg: JsonView,
    params: JsonView,
)
    requires
        msg.get("jsonrpc"@) == Some(JsonView::Str("2.0"@)),
        msg.get("id"@) == Some(id),
        msg.get("method"@) == Some(JsonView::Str("tools/call"@)),
        msg.get("params"@) == Some(params),
        params.get("name"@) == Some(JsonView::Str(name)),
        0 <= i < tools::tool_list().len(),
        tools::tool_list()[i].get("name"@) == Some(JsonView::Str(name)),
    ensures
        params.get("arguments"@) == Some(JsonView::Object(args)) ==> message_step(true, msg)
            == StepView::Call(id, name, JsonView::Object(args)),
        params.get("arguments"@) is None ==> message_step(true, msg) == StepView::Call(
            id,
            name,
            JsonView::Object(Map::empty()),
        ),
{
    reveal_strlit("tools/call");
    reveal_strlit("tools/list");
    reveal_strlit("initialize");
    reveal_strlit("ping");
    assert("tools/call"@.len() == 10);
    assert("tools/list"@.len() == 10);
    assert("initialize"@.len() == 10);
    assert("ping"@.len() == 4);
    assert("tools/call"@[6] != "tools/list"@[6]);
    assert("tools/call"@[0] != "initialize"@[0]);
    assert("tools/list"@[0] != "initialize"@[0]);
    assert(tools::tool_list()[i].get_str("name"@) == Some(name));
}

/// What is refused is refused under the id of the request, with the code for what is wrong with
/// it, and runs nothing.
pub proof fn law_refusals_are_told(initialized: bool, msg: JsonView)
    ensures
        match message_step(initialized, msg) {
            StepView::Reply(reply) => {
                &&& reply.get("jsonrpc"@) == Some(JsonView::Str("2.0"@))
                &&& reply.get("result"@) is Some <==> reply.get("error"@) is None
                &&& msg is Array || msg.get("jsonrpc"@) != Some(JsonView::Str("2.0"@)) || !(msg.get(
                    "method"@,
                ) matches Some(JsonView::Str(_))) ==> refused_with(reply, -32600)
                &&& !(msg is Array) && msg.get("id"@) is Some ==> reply.get("id"@) == msg.get("id"@)
                &&& msg is Array || msg.get("id"@) is None ==> reply.get("id"@) == Some(
                    JsonView::Null,
                )
            },
            StepView::Silent => {
                &&& msg.get("id"@) is None
                &&& msg.get("jsonrpc"@) == Some(JsonView::Str("2.0"@))
                &&& msg.get("method"@) matches Some(JsonView::Str(_))
            },
            StepView::Call(_, _, _) => msg.get("id"@) is Some,
        },
{
    reveal_strlit("jsonrpc");
    reveal_strlit("id");
    reveal_strlit("result");
    reveal_strlit("error");
    reveal_strlit("code");
    reveal_strlit("message");
    assert("jsonrpc"@.len() == 7);
    assert("id"@.len() == 2);
    assert("result"@.len() == 6);
    assert("error"@.len() == 5);
    assert("code"@.len() == 4);
    assert("message"@.len() == 7);
    assert("jsonrpc"@[0] != "message"@[0]);
}

/// Whether a reply carries an error of a code.
pub open spec fn refused_with(reply: JsonView, code: int) -> bool {
    reply.get("error"@) matches Some(e) && e.get("code"@) == Some(
        JsonView::Num(json::NumberView::Negative(code as i64)),
    ) && (e.get("message"@) matches Some(JsonView::Str(_)))
}

/// A request by its method: `ping` and `initialize` are answered at once, the tools are listed as
/// they are advertised, a call of an unknown tool or with wrong parameters is refused as such, and
/// so is a method that there is none of.
pub proof fn law_methods_are_answered(initialized: bool, msg: JsonView, id: JsonView, method: Seq<char>)
    requires
        msg.get("jsonrpc"@) == Some(JsonView::Str("2.0"@)),
        msg.get("id"@) == Some(id),
        msg.get("method"@) == Some(JsonView::Str(method)),
    ensures
        method == "ping"@ ==> (message_step(initialized, msg) matches StepView::Reply(r) && r.get(
            "result"@,
        ) == Some(JsonView::Object(Map::empty()))),
        method == "initialize"@ ==> (message_step(initialized, msg) matches StepView::Reply(r)
            && r.get("result"@) matches Some(told) && told.get("protocolVersion"@) == Some(
            JsonView::Str("2025-06-18"@),
        ) && (told.get("capabilities"@) matches Some(c) && c.get("tools"@) is Some)),
        method == "tools/list"@ && initialized ==> (message_step(initialized, msg) matches StepView::Reply(
            r,
        ) && r.get("result"@) matches Some(told) && told.get("tools"@) == Some(
            JsonView::Array(tools::tool_list()),
        )),
        (method == "tools/list"@ || method == "tools/call"@) && !initialized ==> (message_step(
            initialized,
            msg,
        ) matches StepView::Reply(r) && refused_with(r, -32002)),
        method != "ping"@ && method != "initialize"@ && method != "tools/list"@ && method
            != "tools/call"@ ==> (message_step(initialized, msg) matches StepView::Reply(r)
            && refused_with(r, -32601)),
        method == "tools/call"@ && initialized && !(message_step(initialized, msg) is Call) ==> (
        message_step(initialized, msg) matches StepView::Reply(r) && refused_with(r, -32602)),
        armed_by(initialized, msg) <==> initialized || method == "initialize"@,
{
    reveal_strlit("tools/call");
    reveal_strlit("tools/list");
    reveal_strlit("initialize");
    reveal_strlit("ping");
    assert("tools/call"@.len() == 10);
    assert("tools/list"@.len() == 10);
    assert("initialize"@.len() == 10);
    assert("ping"@.len() == 4);
    assert("tools/call"@[6] != "tools/list"@[6]);
    assert("tools/call"@[0] != "initialize"@[0]);
    assert("tools/list"@[0] != "initialize"@[0]);
    reveal_strlit("jsonrpc");
    reveal_strlit("id");
    reveal_strlit("result");
    reveal_strlit("error");
    reveal_strlit("code");
    reveal_strlit("message");
    assert("jsonrpc"@.len() == 7);
    assert("id"@.len() == 2);
    assert("result"@.len() == 6);
    assert("error"@.len() == 5);
    assert("code"@.len() == 4);
    assert("message"@.len() == 7);
    assert("jsonrpc"@[0] != "message"@[0]);
    reveal_strlit("protocolVersion");
    reveal_strlit("capabilities");
    reveal_strlit("serverInfo");
    reveal_strlit("tools");
    assert("protocolVersion"@.len() == 15);
    assert("capabilities"@.len() == 12);
    assert("serverInfo"@.len() == 10);
    assert("tools"@.len() == 5);
}

/// A line is routed by what it reads as, and a line that reads as nothing is refused with a null
/// id; a frame over the cap or of no text is refused likewise, a blank one passes in silence, and
/// only the end of the input ends the session.
pub proof fn law_frames_are_routed(initialized: bool, frame: FrameView)
    ensures
        frame_step(initialized, frame) is None <==> frame is Eof,
        frame matches FrameView::Line(line) ==> {
            &&& (forall|i: int| 0 <= i < line.len() ==> text::is_space(#[trigger] line[i]))
                ==> frame_step(initialized, frame) == Some(StepView::Silent) && armed_by_frame(
                initialized,
                frame,
            ) == initialized
            &&& (exists|i: int| 0 <= i < line.len() && !text::is_space(#[trigger] line[i])) ==> (
            match json::parsed_json(line) {
                Ok(msg) => frame_step(initialized, frame) == Some(message_step(initialized, msg))
                    && armed_by_frame(initialized, frame) == armed_by(initialized, msg),
                Err(_) => frame_step(initialized, frame) matches Some(StepView::Reply(r))
                    && r.get("id"@) == Some(JsonView::Null) && refused_with(r, -32700)
                    && armed_by_frame(initialized, frame) == initialized,
            })
        },
        frame is OverCap || frame is InvalidUtf8 ==> (frame_step(initialized, frame) matches Some(
            StepView::Reply(r),
        ) && r.get("id"@) == Some(JsonView::Null) && refused_with(r, -32700)) && armed_by_frame(
            initialized,
            frame,
        ) == initialized,
{
    reveal_strlit("jsonrpc");
    reveal_strlit("id");
    reveal_strlit("result");
    reveal_strlit("error");
    reveal_strlit("code");
    reveal_strlit("message");
    assert("jsonrpc"@.len() == 7);
    assert("id"@.len() == 2);
    assert("result"@.len() == 6);
    assert("error"@.len() == 5);
    assert("code"@.len() == 4);
    assert("message"@.len() == 7);
    assert("jsonrpc"@[0] != "message"@[0]);
    if let FrameView::Line(line) = frame {
        text::law_trimmed(line);
        if forall|i: int| 0 <= i < line.len() ==> text::is_space(#[trigger] line[i]) {
            let t = text::trimmed(line);
            let (a, b) = choose|a: int, b: int|
                0 <= a <= b <= line.len() && t == #[trigger] line.subrange(a, b);
            if t.len() > 0 {
                assert(t[0] == line[a]);
            }
        }
    }
}

/// What a tool is called with is what it does: the address, the script, what is waited for and for
/// how long are those of the arguments, and what is missing or of no use is refused.
pub proof fn law_tools_do_what_they_are_told(args: JsonView)
    ensures
        match args.get("url"@) {
            Some(JsonView::Str(url)) => tool_plan("browser_navigate"@, args) == Ok::<
                ToolPlanView,
                ErrorView,
            >(ToolPlanView::Navigate(url)),
            _ => tool_plan("browser_navigate"@, args) matches Err(ErrorView::InvalidArgument(_)),
        },
        match args.get("code"@) {
            Some(JsonView::Str(code)) => tool_plan("browser_eval"@, args) == Ok::<
                ToolPlanView,
                ErrorView,
            >(ToolPlanView::Eval(code)),
            _ => tool_plan("browser_eval"@, args) matches Err(ErrorView::InvalidArgument(_)),
        },
        tool_plan("browser_snapshot"@, args) == Ok::<ToolPlanView, ErrorView>(ToolPlanView::Snapshot),
        tool_plan("browser_screenshot"@, args) == Ok::<ToolPlanView, ErrorView>(
            ToolPlanView::Screenshot,
        ),
        match tool_plan("browser_wait"@, args) {
            Ok(plan) => plan matches ToolPlanView::Wait(condition, ms) && {
                &&& wait::condition_of(args) == Ok::<ConditionView, Seq<char>>(condition)
                &&& match args.get("timeout_ms"@) {
                    None => ms == 10000,
                    Some(JsonView::Null) => ms == 10000,
                    Some(v) => ms > 0 && v == JsonView::Num(json::NumberView::Unsigned(ms)),
                }
            },
            Err(e) => e is InvalidArgument,
        },
        tool_plan("browser_wait"@, args) is Ok <==> wait::condition_of(args) is Ok && match args.get(
            "timeout_ms"@,
        ) {
            None => true,
            Some(JsonView::Null) => true,
            Some(JsonView::Num(json::NumberView::Unsigned(n))) => n > 0,
            _ => false,
        },
{
    reveal_strlit("browser_navigate");
    reveal_strlit("browser_eval");
    reveal_strlit("browser_snapshot");
    reveal_strlit("browser_screenshot");
    reveal_strlit("browser_wait");
    reveal_strlit("browser_click");
    reveal_strlit("browser_type");
    reveal_strlit("browser_press_key");
    reveal_strlit("browser_scroll");
    reveal_strlit("browser_select");
    assert("browser_navigate"@.len() == 16);
    assert("browser_eval"@.len() == 12);
    assert("browser_snapshot"@.len() == 16);
    assert("browser_screenshot"@.len() == 18);
    assert("browser_wait"@.len() == 12);
    assert("browser_click"@.len() == 13);
    assert("browser_type"@.len() == 12);
    assert("browser_press_key"@.len() == 17);
    assert("browser_scroll"@.len() == 14);
    assert("browser_select"@.len() == 14);
    assert("browser_navigate"@[8] != "browser_snapshot"@[8]);
    assert("browser_eval"@[8] != "browser_wait"@[8]);
    assert("browser_eval"@[8] != "browser_type"@[8]);
    assert("browser_wait"@[8] != "browser_type"@[8]);
    assert("browser_scroll"@[9] != "browser_select"@[9]);
}

/// Each acting tool performs its own kind of action, read from the arguments as they are.
pub proof fn law_acting_tools_act(args: JsonView)
    ensures
        performs("browser_click"@, ActionKind::Click, args),
        performs("browser_type"@, ActionKind::Type, args),
        performs("browser_press_key"@, ActionKind::KeyPress, args),
        performs("browser_scroll"@, ActionKind::Scroll, args),
        performs("browser_select"@, ActionKind::Select, args),
{
    reveal_strlit("browser_navigate");
    reveal_strlit("browser_eval");
    reveal_strlit("browser_snapshot");
    reveal_strlit("browser_screenshot");
    reveal_strlit("browser_wait");
    reveal_strlit("browser_click");
    reveal_strlit("browser_type");
    reveal_strlit("browser_press_key");
    reveal_strlit("browser_scroll");
    reveal_strlit("browser_select");
    assert("browser_navigate"@.len() == 16);
    assert("browser_eval"@.len() == 12);
    assert("browser_snapshot"@.len() == 16);
    assert("browser_screenshot"@.len() == 18);
    assert("browser_wait"@.len() == 12);
    assert("browser_click"@.len() == 13);
    assert("browser_type"@.len() == 12);
    assert("browser_press_key"@.len() == 17);
    assert("browser_scroll"@.len() == 14);
    assert("browser_select"@.len() == 14);
    assert("browser_navigate"@[8] != "browser_snapshot"@[8]);
    assert("browser_eval"@[8] != "browser_wait"@[8]);
    assert("browser_eval"@[8] != "browser_type"@[8]);
    assert("browser_wait"@[8] != "browser_type"@[8]);
    assert("browser_scroll"@[9] != "browser_select"@[9]);
}

/// Whether a tool performs the action of a kind that its arguments describe, or refuses them.
pub open spec fn performs(tool: Seq<char>, kind: ActionKind, args: JsonView) -> bool {
    match action::action_of(kind, args) {
        Ok(a) => tool_plan(tool, args) == Ok::<ToolPlanView, ErrorView>(ToolPlanView::Act(a)),
        Err(_) => tool_plan(tool, args) matches Err(ErrorView::InvalidArgument(_)),
    }
}

/// The reply to a call answers that call and shows its outcome: the content of a tool that went
/// well, and of one that failed its text, marked as an error, with the error itself beside it.
pub proof fn law_outcomes_are_shown(
    id: JsonView,
    outcome: Result<Seq<JsonView>, (Seq<char>, JsonView)>,
)
    ensures
        ({
            let reply = tool_reply_view(id, outcome);
            &&& reply.get("id"@) == Some(id)
            &&& reply.get("jsonrpc"@) == Some(JsonView::Str("2.0"@))
            &&& reply.get("error"@) is None
            &&& reply.get("result"@) matches Some(told) && match outcome {
                Ok(content) => {
                    &&& told.get("content"@) == Some(JsonView::Array(content))
                    &&& told.get("isError"@) == Some(JsonView::Bool(false))
                    &&& told.get("structuredContent"@) is None
                },
                Err((text, wire)) => {
                    &&& told.get("isError"@) == Some(JsonView::Bool(true))
                    &&& told.get("structuredContent"@) == Some(wire)
                    &&& told.get("content"@) matches Some(JsonView::Array(blocks)) && blocks.len()
                        == 1 && blocks[0].get("type"@) == Some(JsonView::Str("text"@))
                        && blocks[0].get("text"@) == Some(JsonView::Str(text))
                },
            }
        }),
{
    reveal_strlit("jsonrpc");
    reveal_strlit("id");
    reveal_strlit("result");
    reveal_strlit("error");
    assert("jsonrpc"@.len() == 7);
    assert("id"@.len() == 2);
    assert("result"@.len() == 6);
    assert("error"@.len() == 5);
    reveal_strlit("content");
    reveal_strlit("isError");
    reveal_strlit("structuredContent");
    assert("content"@.len() == 7);
    assert("isError"@.len() == 7);
    assert("structuredContent"@.len() == 17);
    assert("content"@[0] != "isError"@[0]);
    reveal_strlit("type");
    reveal_strlit("text");
    assert("type"@.len() == 4);
    assert("text"@.len() == 4);
    assert("type"@[1] != "text"@[1]);
}

/// A screenshot is looked for where the capture says that it was saved; where it says that there
/// is none, its reason is passed on.
pub proof fn law_screenshots_are_where_they_were_saved(data: JsonView, human: Seq<char>)
    ensures
        match data.get("screenshot_path"@) {
            Some(JsonView::Str(path)) => screenshot_path_view(OutputView::Data(data, human)) == Ok::<
                Seq<char>,
                ErrorView,
            >(path),
            _ => match data.get("screenshot_error"@) {
                Some(JsonView::Str(why)) => screenshot_path_view(OutputView::Data(data, human))
                    == Err::<Seq<char>, ErrorView>(ErrorView::Other(why)),
                _ => screenshot_path_view(OutputView::Data(data, human)) is Err,
            },
        },
        forall|o: OutputView| !(o is Data) ==> #[trigger] screenshot_path_view(o) is Err,
{
}

/// A frame is the first line of the input, newline and all, read as text: no byte is lost, added or
/// changed, and the cap counts what stands before the newline.
pub proof fn law_frames_are_lines(line: Seq<u8>, rest: Seq<u8>, max: u64)
    requires
        forall|i: int| 0 <= i < line.len() ==> line[i] != 10,
    ensures
        ({
            let input = line.push(10) + rest;
            &&& line_end(input) == line.len() + 1
            &&& frame_of(input, max) == if line.len() > max {
                FrameView::OverCap
            } else if vstd::utf8::valid_utf8(line.push(10)) {
                FrameView::Line(vstd::utf8::decode_utf8(line.push(10)))
            } else {
                FrameView::InvalidUtf8
            }
        }),
        line_end(line) == line.len(),
        frame_of(line, max) == if line.len() == 0 {
            FrameView::Eof
        } else if line.len() > max {
            FrameView::OverCap
        } else if vstd::utf8::valid_utf8(line) {
            FrameView::Line(vstd::utf8::decode_utf8(line))
        } else {
            FrameView::InvalidUtf8
        },
{
    let input = line.push(10) + rest;
    assert(input[line.len() as int] == 10);
    assert forall|i: int| 0 <= i < line.len() implies input[i] != 10 by {
        assert(input[i] == line[i]);
    }
    lemma_line_end(input, line.len() as int);
    lemma_line_end(line, line.len() as int);
    assert(input.take(line.len() as int + 1) =~= line.push(10));
    assert(line.take(line.len() as int) =~= line);
}

/// A tool call is handed on exactly where it names a tool that is listed and its arguments, if any, are
/// an object: with its id, its name and its arguments as they came. Any other is refused under its id.
pub proof fn law_tool_calls_are_handed_on(id: Json, params: Json, specs: Json, r: Step)
    requires
        call_ensures(decide_tool_call, (id, &params), r),
        call_ensures(tools::tool_specs, (), specs),
    ensures
        r matches Step::Call { id: i, name, args } ==> {
            &&& i@ == id@
            &&& params@.get("name"@) == Some(JsonView::Str(name@))
            &&& params@.get("arguments"@) matches Some(v) ==> args@ == v
            &&& params@.get("arguments"@) is None ==> args@ == JsonView::Object(Map::empty())
        },
        r matches Step::Reply(reply) ==> refused_with(reply@, -32602) && reply@.get("id"@) == Some(
            id@,
        ),
        !(r is Silent),
        r is Call <==> {
            &&& params@.get("name"@) matches Some(JsonView::Str(name)) && (
            specs@ matches JsonView::Array(list) && exists|i: int|
                0 <= i < list.len() && (#[trigger] list[i]).get("name"@) == Some(
                    JsonView::Str(name),
                ))
            &&& params@.get("arguments"@) matches Some(v) ==> v is Object
        },
{
    reveal_strlit("jsonrpc");
    reveal_strlit("id");
    reveal_strlit("result");
    reveal_strlit("error");
    reveal_strlit("code");
    reveal_strlit("message");
    assert("jsonrpc"@.len() == 7);
    assert("id"@.len() == 2);
    assert("result"@.len() == 6);
    assert("error"@.len() == 5);
    assert("code"@.len() == 4);
    assert("message"@.len() == 7);
    assert("jsonrpc"@[0] != "message"@[0]);
    if let Some(JsonView::Str(name)) = params@.get("name"@) {
        let list = tools::tool_list();
        if tools::advertised(name) {
            let i = choose|i: int|
                0 <= i < list.len() && (#[trigger] list[i]).get_str("name"@) == Some(name);
            assert(list[i].get("name"@) == Some(JsonView::Str(name)));
        }
        if exists|i: int|
            0 <= i < list.len() && (#[trigger] list[i]).get("name"@) == Some(JsonView::Str(name)) {
            let i = choose|i: int|
                0 <= i < list.len() && (#[trigger] list[i]).get("name"@) == Some(
                    JsonView::Str(name),
                );
            assert(list[i].get_str("name"@) == Some(name));
        }
    }
}

/// What a message comes to: a request is answered under its id or, where it calls a tool, handed on with
/// what it asks for; a message without an id is not answered where it is well formed; the server counts
/// as initialized from the request to initialize on.
pub proof fn law_messages_are_handled(initialized: &mut bool, msg: Json, r: Step)
    requires
        call_ensures(handle_message, (initialized, &msg), r),
    ensures
        r matches Step::Call { id, name, args } ==> {
            &&& *old(initialized)
            &&& msg@.get("id"@) == Some(id@)
            &&& msg@.get("method"@) == Some(JsonView::Str("tools/call"@))
            &&& msg@.get("params"@) matches Some(params) && params.get("name"@) == Some(
                JsonView::Str(name@),
            ) && (params.get("arguments"@) matches Some(v) ==> args@ == v) && (params.get(
                "arguments"@,
            ) is None ==> args@ == JsonView::Object(Map::empty()))
        },
        r matches Step::Reply(reply) ==> {
            &&& reply@.get("jsonrpc"@) == Some(JsonView::Str("2.0"@))
            &&& reply@.get("result"@) is Some <==> reply@.get("error"@) is None
            &&& !(msg@ is Array) && msg@.get("id"@) is Some ==> reply@.get("id"@) == msg@.get("id"@)
        },
        r is Silent ==> msg@.get("id"@) is None && msg@.get("jsonrpc"@) == Some(
            JsonView::Str("2.0"@),
        ),
        *final(initialized) <==> *old(initialized) || (msg@.get("jsonrpc"@) == Some(
            JsonView::Str("2.0"@),
        ) && msg@.get("id"@) is Some && msg@.get("method"@) == Some(JsonView::Str("initialize"@))),
        msg@.get("jsonrpc"@) == Some(JsonView::Str("2.0"@)) && msg@.get("id"@) is Some && msg@.get(
            "method"@,
        ) == Some(JsonView::Str("ping"@)) ==> (r matches Step::Reply(reply) && reply@.get("result"@)
            == Some(JsonView::Object(Map::empty()))),
        msg@.get("jsonrpc"@) == Some(JsonView::Str("2.0"@)) && msg@.get("id"@) is Some && msg@.get(
            "method"@,
        ) == Some(JsonView::Str("tools/list"@)) && *old(initialized) ==> (r matches Step::Reply(
            reply,
        ) && reply@.get("result"@) matches Some(told) && told.get("tools"@) == Some(
            JsonView::Array(tools::tool_list()),
        )),
        msg@.get("jsonrpc"@) == Some(JsonView::Str("2.0"@)) && msg@.get("id"@) is Some && msg@.get(
            "method"@,
        ) == Some(JsonView::Str("tools/call"@)) && !*old(initialized) ==> (r matches Step::Reply(
            reply,
        ) && refused_with(reply@, -32002)),
{
    law_calls_carry_what_was_asked(*old(initialized), msg@);
    law_refusals_are_told(*old(initialized), msg@);
    if let Some(JsonView::Str(method)) = msg@.get("method"@) {
        if let Some(id) = msg@.get("id"@) {
            if msg@.get("jsonrpc"@) == Some(JsonView::Str("2.0"@)) {
                law_methods_are_answered(*old(initialized), msg@, id, method);
            }
        }
    }
}

/// A frame is handled as the line it holds, and a line as the message that it is; what is no message is
/// refused, a blank line is passed over, and the end of the input ends the session.
pub proof fn law_frames_are_handled(
    initialized: &mut bool,
    frame: Frame,
    r: Option<Step>,
    msg: Json,
    at_line: &mut bool,
    step: Step,
)
    requires
        call_ensures(handle_frame, (initialized, &frame), r),
        call_ensures(handle_message, (at_line, &msg), step),
        *old(initialized) == *old(at_line),
    ensures
        r is None <==> frame is Eof,
        frame is OverCap || frame is InvalidUtf8 ==> (r matches Some(Step::Reply(reply))
            && refused_with(reply@, -32700) && reply@.get("id"@) == Some(JsonView::Null)),
        frame matches Frame::Line(line) ==> {
            &&& text::trimmed(line@).len() == 0 ==> (r matches Some(Step::Silent))
            &&& text::trimmed(line@).len() > 0 && json::parsed_json(line@) is Err ==> (
            r matches Some(Step::Reply(reply)) && refused_with(reply@, -32700))
            &&& text::trimmed(line@).len() > 0 && json::parsed_json(line@) == Ok::<
                JsonView,
                Seq<char>,
            >(msg@) ==> r is Some && r->0@ == step@ && *final(initialized) == *final(at_line)
        },
{
    reveal_strlit("jsonrpc");
    reveal_strlit("id");
    reveal_strlit("result");
    reveal_strlit("error");
    reveal_strlit("code");
    reveal_strlit("message");
    assert("jsonrpc"@.len() == 7);
    assert("id"@.len() == 2);
    assert("result"@.len() == 6);
    assert("error"@.len() == 5);
    assert("code"@.len() == 4);
    assert("message"@.len() == 7);
    assert("jsonrpc"@[0] != "message"@[0]);
    law_frames_are_routed(*old(initialized), frame@);
}

/// What a tool does is what its name and its arguments say: where to go, what to run, what to wait for
/// and how long, which action to perform.
pub proof fn law_tools_are_called(
    name: &str,
    args: Json,
    r: Result<ToolPlan, WebPilotError>,
    kind: ActionKind,
    read: Result<Action, String>,
    condition: Result<WaitCondition, String>,
)
    requires
        call_ensures(call_tool, (name, &args), r),
        call_ensures(Action::read, (kind, &args), read),
        call_ensures(WaitCondition::read, (&args,), condition),
    ensures
        name@ == "browser_navigate"@ ==> match args@.get("url"@) {
            Some(JsonView::Str(u)) => r matches Ok(ToolPlan::Navigate { url }) && url@ == u,
            _ => r is Err,
        },
        name@ == "browser_eval"@ ==> match args@.get("code"@) {
            Some(JsonView::Str(c)) => r matches Ok(ToolPlan::Eval { code }) && code@ == c,
            _ => r is Err,
        },
        name@ == "browser_snapshot"@ ==> r matches Ok(ToolPlan::Snapshot),
        name@ == "browser_screenshot"@ ==> r matches Ok(ToolPlan::Screenshot),
        (name@ == "browser_click"@ && kind is Click) || (name@ == "browser_type"@ && kind is Type) || (
        name@ == "browser_press_key"@ && kind is KeyPress) || (name@ == "browser_scroll"@ && kind
            is Scroll) || (name@ == "browser_select"@ && kind is Select) ==> {
            &&& r is Ok <==> read is Ok
            &&& r is Ok ==> (r matches Ok(ToolPlan::Act { action }) && action@ == read->Ok_0@)
            &&& read matches Err(e) ==> (r matches Err(WebPilotError::InvalidArgument { detail })
                && text::has_suffix(detail@, e@))
        },
        name@ == "browser_wait"@ && r is Ok ==> (r matches Ok(
            ToolPlan::Wait { condition: c, timeout_ms },
        ) && condition is Ok && c@ == condition->Ok_0@ && timeout_ms > 0 && match args@.get(
            "timeout_ms"@,
        ) {
            Some(JsonView::Num(json::NumberView::Unsigned(n))) => timeout_ms == n,
            _ => timeout_ms == 10000,
        }),
        name@ == "browser_wait"@ && condition is Ok && args@.get("timeout_ms"@) is None ==> r is Ok,
        r matches Err(e) ==> e is InvalidArgument,
{
    reveal_strlit("browser_navigate");
    reveal_strlit("browser_eval");
    reveal_strlit("browser_snapshot");
    reveal_strlit("browser_screenshot");
    reveal_strlit("browser_wait");
    reveal_strlit("browser_click");
    reveal_strlit("browser_type");
    reveal_strlit("browser_press_key");
    reveal_strlit("browser_scroll");
    reveal_strlit("browser_select");
    assert("browser_navigate"@.len() == 16);
    assert("browser_eval"@.len() == 12);
    assert("browser_snapshot"@.len() == 16);
    assert("browser_screenshot"@.len() == 18);
    assert("browser_wait"@.len() == 12);
    assert("browser_click"@.len() == 13);
    assert("browser_type"@.len() == 12);
    assert("browser_press_key"@.len() == 17);
    assert("browser_scroll"@.len() == 14);
    assert("browser_select"@.len() == 14);
    assert("browser_navigate"@[8] != "browser_snapshot"@[8]);
    assert("browser_eval"@[8] != "browser_wait"@[8]);
    assert("browser_eval"@[8] != "browser_type"@[8]);
    assert("browser_wait"@[8] != "browser_type"@[8]);
    assert("browser_scroll"@[9] != "browser_select"@[9]);
    law_tools_do_what_they_are_told(args@);
    if let Err(e) = read {
        text::lemma_back("invalid arguments for "@ + name@ + ": "@, e@);
    }
}

/// What a tool came to is answered under the id of the call: its content, or its failure in words and as
/// it goes on the wire. Only a failure of the infrastructure gives the connection up.
pub proof fn law_calls_are_answered(
    id: Json,
    outcome: Result<Vec<Json>, ToolFailure>,
    r: Json,
    drops: bool,
)
    requires
        call_ensures(tool_call_reply, (id, outcome), r),
        call_ensures(drops_transport, (&outcome,), drops),
    ensures
        r@.get("id"@) == Some(id@),
        r@.get("error"@) is None,
        r@.get("result"@) matches Some(told) && match outcome {
            Ok(content) => {
                &&& told.get("isError"@) == Some(JsonView::Bool(false))
                &&& told.get("content"@) matches Some(JsonView::Array(list)) && list.len()
                    == content@.len() && forall|i: int|
                    0 <= i < list.len() ==> #[trigger] list[i] == content@[i]@
            },
            Err(e) => {
                &&& told.get("isError"@) == Some(JsonView::Bool(true))
                &&& told.get("structuredContent"@) == Some(e.wire@)
                &&& told.get("content"@) matches Some(JsonView::Array(list)) && list.len() == 1
                    && list[0].get("text"@) == Some(JsonView::Str(e.text@)) && list[0].get("type"@)
                    == Some(JsonView::Str("text"@))
            },
        },
        drops <==> (outcome matches Err(e) && e.exit_code == 3),
{
    law_outcomes_are_shown(id@, tool_outcome(outcome));
    if let Ok(content) = outcome {
        json::lemma_views_index(content@);
    }
}

/// A screenshot is where it was saved; what was not saved fails with the reason. It is shown as the
/// image itself, as PNG in base64, and with the words that go with it.
pub proof fn law_screenshots_are_shown(
    data: Json,
    human: String,
    r: Result<String, WebPilotError>,
    bytes: &[u8],
    lines: &str,
    blocks: Vec<Json>,
)
    requires
        call_ensures(screenshot_path, (&CommandOutput::Data { json: data, human },), r),
        call_ensures(screenshot_content, (bytes, lines), blocks),
    ensures
        match data@.get("screenshot_path"@) {
            Some(JsonView::Str(p)) => r matches Ok(path) && path@ == p,
            _ => r is Err && (data@.get("screenshot_error"@) matches Some(JsonView::Str(why)) ==> (
            r->Err_0 matches WebPilotError::Other { detail } && detail@ == why)),
        },
        blocks@.len() == 2,
        blocks@[0]@.get("type"@) == Some(JsonView::Str("image"@)),
        blocks@[0]@.get("data"@) == Some(JsonView::Str(codec::base64_text(bytes@))),
        blocks@[0]@.get("mimeType"@) == Some(JsonView::Str("image/png"@)),
        blocks@[1]@.get("type"@) == Some(JsonView::Str("text"@)),
        blocks@[1]@.get("text"@) == Some(JsonView::Str(lines@)),
{
    reveal_strlit("type");
    reveal_strlit("data");
    reveal_strlit("mimeType");
    reveal_strlit("text");
    assert("type"@.len() == 4);
    assert("data"@.len() == 4);
    assert("mimeType"@.len() == 8);
    assert("text"@.len() == 4);
    assert("type"@[0] != "data"@[0]);
    assert("type"@[1] != "text"@[1]);
    assert("data"@[0] != "text"@[0]);
    json::lemma_views_index(blocks@);
    assert(json::views(blocks@)[0] == blocks@[0]@ && json::views(blocks@)[1] == blocks@[1]@);
}

/// A frame is read off the front of the input: the first line whole, as text, and as many bytes as it
/// has; a line over the cap, and bytes that are no text, are passed over as a whole.
pub proof fn law_frames_are_read(line: Seq<u8>, rest: Seq<u8>, input: &[u8], max: u64, r: (Frame, usize))
    requires
        forall|i: int| 0 <= i < line.len() ==> line[i] != 10,
        input@ == line.push(10) + rest,
        call_ensures(read_frame, (input, max), r),
    ensures
        r.1 == line.len() + 1,
        r.0 is OverCap <==> line.len() > max,
        line.len() <= max && vstd::utf8::valid_utf8(line.push(10)) ==> (r.0 matches Frame::Line(t)
            && t@ == vstd::utf8::decode_utf8(line.push(10))),
        line.len() <= max && !vstd::utf8::valid_utf8(line.push(10)) ==> r.0 is InvalidUtf8,
{
    law_frames_are_lines(line, rest, max);
}

/// A reply that succeeds carries its result and no error, one that fails its code and message and no
/// result, each under the id; the line of a reply is its text and a newline.
pub proof fn law_replies_are_made(id: Json, result: Json, ok: Json, code: i64, message: &str, bad: Json, line: String, lost: Json)
    requires
        code < 0,
        call_ensures(ok_reply, (id, result), ok),
        call_ensures(error_reply, (id, code, message), bad),
        call_ensures(reply_line, (&ok,), line),
        call_ensures(panic_reply, (), lost),
    ensures
        ok@.get("jsonrpc"@) == Some(JsonView::Str("2.0"@)),
        ok@.get("id"@) == Some(id@),
        ok@.get("result"@) == Some(result@),
        ok@.get("error"@) is None,
        bad@.get("jsonrpc"@) == Some(JsonView::Str("2.0"@)),
        bad@.get("id"@) == Some(id@),
        bad@.get("result"@) is None,
        refused_with(bad@, code as int),
        bad@.get("error"@) matches Some(e) && e.get("message"@) == Some(JsonView::Str(message@)),
        line@ == json::written(ok@).push('\n'),
        refused_with(lost@, -32603) && lost@.get("id"@) == Some(JsonView::Null),
{
    reveal_strlit("jsonrpc");
    reveal_strlit("id");
    reveal_strlit("result");
    reveal_strlit("error");
    reveal_strlit("code");
    reveal_strlit("message");
    assert("jsonrpc"@.len() == 7);
    assert("id"@.len() == 2);
    assert("result"@.len() == 6);
    assert("error"@.len() == 5);
    assert("code"@.len() == 4);
    assert("message"@.len() == 7);
    assert("jsonrpc"@[0] != "message"@[0]);
}

/// The parameters of a call are right exactly where the name is a text and the arguments, if any, are an
/// object. An argument is the text under its name; a block of a result holds its text.
pub proof fn law_parameters_are_read(
    params: Json,
    bad: Option<&'static str>,
    args: Json,
    key: &str,
    arg: Result<String, WebPilotError>,
    t: &str,
    block: Json,
    hello: Json,
)
    requires
        call_ensures(tool_call_param_error, (&params,), bad),
        call_ensures(str_arg, (&args, key), arg),
        call_ensures(text_block, (t,), block),
        call_ensures(initialize_result, (), hello),
    ensures
        bad is None <==> (params@.get("name"@) matches Some(JsonView::Str(_))) && (params@.get(
            "arguments"@,
        ) matches Some(v) ==> v is Object),
        arg is Ok <==> (args@.get(key@) matches Some(JsonView::Str(_))),
        arg matches Ok(v) ==> args@.get(key@) == Some(JsonView::Str(v@)),
        arg matches Err(e) ==> (e matches WebPilotError::InvalidArgument { detail }
            && text::has_suffix(detail@, key@)),
        block@.get("type"@) == Some(JsonView::Str("text"@)),
        block@.get("text"@) == Some(JsonView::Str(t@)),
        hello@.get("protocolVersion"@) is Some,
        hello@.get("capabilities"@) matches Some(c) && c.get("tools"@) is Some,
        hello@.get("serverInfo"@) matches Some(s) && s.get("name"@) == Some(
            JsonView::Str("webpilot"@),
        ),
{
    reveal_strlit("type");
    reveal_strlit("text");
    assert("type"@.len() == 4);
    assert("text"@.len() == 4);
    assert("type"@[1] != "text"@[1]);
    reveal_strlit("protocolVersion");
    reveal_strlit("capabilities");
    reveal_strlit("serverInfo");
    reveal_strlit("name");
    reveal_strlit("version");
    assert("protocolVersion"@.len() == 15);
    assert("capabilities"@.len() == 12);
    assert("serverInfo"@.len() == 10);
    assert("name"@.len() == 4);
    assert("version"@.len() == 7);
    text::lemma_back("missing required string argument: "@, key@);
}

/// A line that arrives in parts starts empty, and takes the bytes through its newline: with it, and
/// only with it, the line has ended.
pub proof fn law_newlines_end_lines(
    fresh: PartialLine,
    line: &mut PartialLine,
    chunk: &[u8],
    max: u64,
    r: (Option<Frame>, usize),
)
    requires
        call_ensures(PartialLine::start, (), fresh),
        call_ensures(PartialLine::feed, (line, chunk, max), r),
    ensures
        fresh.held@.len() == 0 && !fresh.over,
        r.0 is Some <==> exists|i: int| 0 <= i < chunk@.len() && #[trigger] chunk@[i] == 10,
        r.0 is Some ==> 0 < r.1 <= chunk@.len() && chunk@[r.1 - 1] == 10 && forall|i: int|
            0 <= i < r.1 - 1 ==> #[trigger] chunk@[i] != 10,
        r.0 is None ==> r.1 == chunk@.len(),
{
    assert(fresh.keeps(Seq::empty(), 0));
    if exists|i: int| 0 <= i < chunk@.len() && #[trigger] chunk@[i] == 10 {
        let k = choose|k: int| 0 <= k < chunk@.len() && #[trigger] chunk@[k] == 10;
        let at = lemma_first_end(chunk@, k);
        lemma_line_end(chunk@, at);
    } else {
        lemma_line_end(chunk@, chunk@.len() as int);
    }
}

proof fn lemma_first_end(bytes: Seq<u8>, k: int) -> (at: int)
    requires
        0 <= k < bytes.len(),
        bytes[k] == 10,
    ensures
        0 <= at <= k,
        bytes[at] == 10,
        forall|i: int| 0 <= i < at ==> bytes[i] != 10,
    decreases k,
{
    if exists|j: int| 0 <= j < k && bytes[j] == 10 {
        let j = choose|j: int| 0 <= j < k && bytes[j] == 10;
        lemma_first_end(bytes, j)
    } else {
        k
    }
}

/// A line may have eight mebibytes.
pub proof fn law_lines_are_bounded()
    ensures
        MAX_LINE_BYTES == 8 * 1024 * 1024,
{
}

} // verus!
