//! `network`: the requests that the page made.
use crate::error;
use crate::error::{ErrorView, WebPilotError};
use crate::json;
use crate::json::{Json, JsonView};
use crate::model;
use crate::output;
use crate::output::{push_note, CommandOutput, OutputView};
use crate::protocol;
use crate::protocol::{lift_error, Reply};
use crate::text;
use crate::text::{dec, join, line_safe};
use vstd::prelude::*;
use vstd::string::StringExecFns;

verus! {

broadcast use {text::group_texts, json::group_json_views};

/// The arguments of `network`.
#[derive(Debug, PartialEq, Eq)]
pub struct NetworkArgs {
    pub command: NetworkCommand,
}

/// What `network` does.
#[derive(Debug, Clone, Copy, PartialEq, Eq)]
pub enum NetworkCommand {
    Start,
    Read { since: Option<u64> },
    Clear,
}

/// A request that the page made, with the JSON that describes it. The duration is in whole
/// milliseconds.
#[derive(Debug, PartialEq, Eq)]
pub struct NetworkEntry {
    pub req_type: String,
    pub url: String,
    pub method: String,
    pub status: Option<u16>,
    pub error: Option<String>,
    pub duration_ms: u64,
    pub timestamp: u64,
    pub wire: Json,
}

/// What a request is.
pub struct RequestView {
    pub req_type: Seq<char>,
    pub url: Seq<char>,
    pub method: Seq<char>,
    pub status: Option<u16>,
    pub error: Option<Seq<char>>,
    pub duration_ms: u64,
    pub timestamp: u64,
    pub wire: JsonView,
}

impl View for NetworkEntry {
    type V = RequestView;

    open spec fn view(&self) -> RequestView {
        RequestView {
            req_type: self.req_type@,
            url: self.url@,
            method: self.method@,
            status: self.status,
            error: model::maybe(self.error),
            duration_ms: self.duration_ms,
            timestamp: self.timestamp,
            wire: self.wire@,
        }
    }
}

/// How a request ended: its status, else its error, else `?`.
pub open spec fn ending(e: RequestView) -> Seq<char> {
    match e.status {
        Some(s) => text::decimal(s as nat),
        None => match e.error {
            Some(m) => text::one_line(m),
            None => "?"@,
        },
    }
}

/// `[timestamp] type method url → status (duration)`.
pub open spec fn request_row(e: RequestView) -> Seq<char> {
    "["@ + text::decimal(e.timestamp as nat) + "] "@ + text::one_line(e.req_type) + " "@
        + text::one_line(e.method) + " "@ + text::one_line(e.url) + " → "@ + ending(e) + " ("@
        + text::decimal(e.duration_ms as nat) + "ms)"@
}

/// One row: the time, which a later read can start from, then the request and how it ended.
pub fn network_row(e: &NetworkEntry) -> (r: String)
    ensures
        r@ == request_row(e@),
{
    let status = match e.status {
        Some(s) => dec(s as u64),
        None => match &e.error {
            Some(m) => line_safe(m.as_str()),
            None => "?".to_owned(),
        },
    };
    "[".to_owned().concat(dec(e.timestamp).as_str()).concat("] ").concat(
        line_safe(e.req_type.as_str()).as_str(),
    ).concat(" ").concat(line_safe(e.method.as_str()).as_str()).concat(" ").concat(
        line_safe(e.url.as_str()).as_str(),
    ).concat(" → ").concat(status.as_str()).concat(" (").concat(dec(e.duration_ms).as_str()).concat(
        "ms)",
    )
}

/// The response to `network`: the requests, or a confirmation.
pub enum NetworkData {
    Entries { entries: Vec<NetworkEntry>, truncated: bool },
    Done { success: bool, error: Option<WebPilotError> },
}

/// What a read prints: its rows, and under them that some may be missing.
pub open spec fn read_output(read: Seq<RequestView>, truncated: bool) -> OutputView {
    let rows = text::joined(Seq::new(read.len(), |i: int| request_row(read[i])), "\n"@);
    OutputView::Data(
        JsonView::object().with(
            "entries"@,
            JsonView::Array(Seq::new(read.len(), |i: int| read[i].wire)),
        ).with("truncated"@, JsonView::Bool(truncated)),
        if truncated {
            output::noted(
                rows,
                "--- network buffer at capacity — older requests may have been dropped ---"@,
            )
        } else {
            rows
        },
    )
}

/// What `network` prints.
pub open spec fn run_outcome(reply: Reply<NetworkData>) -> Result<OutputView, ErrorView> {
    match reply {
        Reply::Data(NetworkData::Entries { entries, truncated }) => Ok(
            read_output(model::each(entries@), truncated),
        ),
        Reply::Data(NetworkData::Done { success, error }) => if success {
            Ok(OutputView::Message("OK"@))
        } else {
            Err(protocol::failure(model::maybe(error)))
        },
        _ => Err(protocol::no_data(reply)),
    }
}

/// What `network` prints.
pub fn run(reply: Reply<NetworkData>) -> (r: Result<CommandOutput, WebPilotError>)
    ensures
        error::outcome(r) == run_outcome(reply),
{
    let data = match reply.data() {
        Ok(d) => d,
        Err(e) => {
            return Err(e);
        },
    };
    match data {
        NetworkData::Entries { entries, truncated } => {
            let ghost all = model::each(entries@);
            let mut wires: Vec<Json> = Vec::new();
            let mut rows: Vec<String> = Vec::new();
            for i in 0..entries.len()
                invariant
                    wires@.len() == i,
                    rows@.len() == i,
                    forall|j: int| 0 <= j < i ==> (#[trigger] wires@[j])@ == entries@[j].wire@,
                    forall|j: int|
                        0 <= j < i ==> (#[trigger] rows@[j])@ == request_row(entries@[j]@),
            {
                wires.push(entries[i].wire.copy());
                rows.push(network_row(&entries[i]));
            }
            proof {
                json::lemma_views_index(wires@);
                text::lemma_texts_index(rows@);
                assert(json::views(wires@) =~= Seq::new(all.len(), |i: int| all[i].wire));
                assert(text::texts(rows@) =~= Seq::new(all.len(), |i: int| request_row(all[i])));
            }
            let mut human = join(&rows, "\n");
            if truncated {
                push_note(
                    &mut human,
                    "--- network buffer at capacity — older requests may have been dropped ---",
                );
            }
            let json = Json::object().with("entries", Json::Array(wires)).with(
                "truncated",
                Json::Bool(truncated),
            );
            Ok(CommandOutput::Data { json, human })
        },
        NetworkData::Done { success, error } => lift_error(
            success,
            error,
            CommandOutput::Message("OK".to_owned()),
        ),
    }
}

/// A read shows every request in its order, and tells whether some may be missing.
pub proof fn law_requests_are_read(
    entries: Vec<NetworkEntry>,
    truncated: bool,
    r: Result<CommandOutput, WebPilotError>,
)
    requires
        call_ensures(run, (Reply::Data((NetworkData::Entries { entries, truncated })),), r),
    ensures
        r matches Ok(CommandOutput::Data { json, human }) && {
            let rows = text::joined(
                Seq::new(entries@.len(), |i: int| request_row(entries@[i]@)),
                "\n"@,
            );
            &&& json@.get("entries"@) matches Some(JsonView::Array(list)) && list.len()
                == entries@.len() && forall|i: int|
                0 <= i < list.len() ==> #[trigger] list[i] == entries@[i].wire@
            &&& json@.get("truncated"@) == Some(JsonView::Bool(truncated))
            &&& text::has_prefix(human@, rows)
            &&& !truncated ==> human@ == rows
            &&& truncated ==> human@.len() > rows.len()
        },
{
    reveal_strlit("entries");
    reveal_strlit("truncated");
    assert("entries"@.len() == 7);
    assert("truncated"@.len() == 9);
    let all = model::each(entries@);
    let rows = Seq::new(all.len(), |i: int| request_row(all[i]));
    assert(rows =~= Seq::new(entries@.len(), |i: int| request_row(entries@[i]@)));
    let shown = text::joined(rows, "\n"@);
    let note = "--- network buffer at capacity — older requests may have been dropped ---"@;
    reveal_strlit("--- network buffer at capacity — older requests may have been dropped ---");
    assert(note.len() > 0);
    assert(shown.take(shown.len() as int) =~= shown);
    assert(output::noted(shown, note).take(shown.len() as int) =~= shown);
}

/// A row shows when a request was made, what it was, and how it ended: by its status, else its error,
/// and after how long.
pub proof fn law_rows_show_their_requests(e: NetworkEntry, r: String)
    requires
        call_ensures(network_row, (&e,), r),
    ensures
        r@ == "["@ + text::decimal(e.timestamp as nat) + "] "@ + text::one_line(e.req_type@) + " "@
            + text::one_line(e.method@) + " "@ + text::one_line(e.url@) + " → "@ + (if e.status
            is Some {
            text::decimal(e.status->0 as nat)
        } else if e.error is Some {
            text::one_line(e.error->0@)
        } else {
            "?"@
        }) + " ("@ + text::decimal(e.duration_ms as nat) + "ms)"@,
{
}

} // verus!
