//! `session`: cookies and storage, to a file and back.
use crate::codec::utf8_text;
use crate::error;
use crate::error::{ErrorView, WebPilotError};
use crate::json::{Json, JsonView};
use crate::output::{CommandOutput, OutputView};
use crate::protocol;
use crate::protocol::{done, Done, Reply};
use crate::text;
use crate::text::dec;
use vstd::prelude::*;
use vstd::string::StringExecFns;

verus! {

/// The arguments of `session`.
#[derive(Debug, PartialEq, Eq)]
pub struct SessionArgs {
    pub command: SessionCommand,
}

/// What `session` does.
#[derive(Debug, PartialEq, Eq)]
pub enum SessionCommand {
    Export { output: Option<String> },
    Import { path: String },
}

/// The longest session file, in bytes.
pub const MAX_SESSION_BYTES: u64 = 67108864;

/// What an export prints, once the file is where it should be.
pub fn exported(path: &str) -> (r: CommandOutput)
    ensures
        r@ == OutputView::Data(
            JsonView::object().with("path"@, JsonView::Str(path@)),
            "Session exported: "@ + path@,
        ),
{
    CommandOutput::Data {
        json: Json::object().with("path", Json::string(path)),
        human: "Session exported: ".to_owned().concat(path),
    }
}

/// Where the browser's side saved an export.
pub fn export_path(reply: Reply<String>) -> (r: Result<String, WebPilotError>)
    ensures
        error::outcome(r) == (match reply {
            Reply::Data(path) => Ok(path@),
            _ => Err(protocol::no_data(reply)),
        }),
{
    reply.data()
}

/// The text of a session file: it must not be too long, and must be UTF-8.
pub open spec fn session_text(bytes: Seq<u8>) -> Result<Seq<char>, ErrorView> {
    if bytes.len() > MAX_SESSION_BYTES {
        Err(
            ErrorView::InvalidArgument(
                "session file exceeds the "@ + text::decimal(MAX_SESSION_BYTES as nat)
                    + "-byte limit"@,
            ),
        )
    } else if !vstd::utf8::valid_utf8(bytes) {
        Err(ErrorView::InvalidArgument("session file is not valid UTF-8"@))
    } else {
        Ok(vstd::utf8::decode_utf8(bytes))
    }
}

/// The text of a session file, of which one byte more than the limit was read.
pub fn import_text(bytes: Vec<u8>) -> (r: Result<String, WebPilotError>)
    ensures
        error::outcome(r) == session_text(bytes@),
{
    if bytes.len() as u64 > MAX_SESSION_BYTES {
        let detail = "session file exceeds the ".to_owned().concat(
            dec(MAX_SESSION_BYTES).as_str(),
        ).concat("-byte limit");
        return Err(WebPilotError::InvalidArgument { detail });
    }
    match utf8_text(bytes) {
        Ok(data) => Ok(data),
        Err(_) => Err(WebPilotError::invalid("session file is not valid UTF-8")),
    }
}

/// What an import prints.
pub fn imported(reply: Reply<Done>) -> (r: Result<CommandOutput, WebPilotError>)
    ensures
        error::outcome(r) == protocol::done_outcome(
            reply,
            OutputView::Message("Session imported"@),
        ),
{
    done(reply, "Session imported".to_owned())
}

/// A session file is read exactly where it is text and no longer than the limit, and as the text it
/// is; an export is told by where it is.
pub proof fn law_sessions(
    bytes: Vec<u8>,
    read: Result<String, WebPilotError>,
    path: &str,
    told: CommandOutput,
    reply: Reply<String>,
    saved: Result<String, WebPilotError>,
)
    requires
        call_ensures(import_text, (bytes,), read),
        call_ensures(exported, (path,), told),
        call_ensures(export_path, (reply,), saved),
    ensures
        read is Ok <==> bytes@.len() <= 67108864 && vstd::utf8::valid_utf8(bytes@),
        read matches Ok(t) ==> t@ == vstd::utf8::decode_utf8(bytes@),
        read matches Err(e) ==> e@ is InvalidArgument,
        told matches CommandOutput::Data { json, human } && json@.get("path"@) == Some(
            JsonView::Str(path@),
        ) && human@ == "Session exported: "@ + path@,
        reply matches Reply::Data(p) ==> saved is Ok && saved->Ok_0@ == p@,
        reply matches Reply::Error(e) ==> saved is Err && saved->Err_0@ == e@,
{
}

} // verus!
