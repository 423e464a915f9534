//! `console`: what the page wrote to its console.
use crate::error;
use crate::error::{ErrorView, WebPilotError};
use crate::json;
use crate::json::{Json, JsonView};
use crate::model;
use crate::output;
use crate::output::{push_note, CommandOutput, OutputView};
use crate::protocol;
use crate::protocol::{lift_error, Reply};
use crate::text;
use crate::text::{dec, join, line_safe, same};
use vstd::prelude::*;
use vstd::string::StringExecFns;

verus! {

broadcast use {text::group_texts, json::group_json_views};

/// The arguments of `console`.
#[derive(Debug, PartialEq, Eq)]
pub struct ConsoleArgs {
    pub command: ConsoleCommand,
}

/// What `console` does.
#[derive(Debug, PartialEq, Eq)]
pub enum ConsoleCommand {
    Start,
    /// Reads the entries of one level, or of all, from a time on.
    Read { level: Option<String>, since: Option<u64> },
    Clear,
}

/// How grave an entry is.
#[derive(Debug, Clone, Copy, PartialEq, Eq, Structural)]
pub enum ConsoleLevel {
    Log,
    Error,
    Warn,
    Info,
    Debug,
}

/// Where an entry comes from: a call of the page, or an error that nothing caught.
#[derive(Debug, Clone, Copy, PartialEq, Eq, Structural)]
pub enum ConsoleSource {
    Console,
    Exception,
}

/// An entry of the console, with the JSON that describes it.
#[derive(Debug, PartialEq, Eq)]
pub struct ConsoleEntry {
    pub source: ConsoleSource,
    pub level: ConsoleLevel,
    pub message: String,
    pub timestamp: u64,
    pub wire: Json,
}

/// What an entry is.
pub struct EntryView {
    pub source: ConsoleSource,
    pub level: ConsoleLevel,
    pub message: Seq<char>,
    pub timestamp: u64,
    pub wire: JsonView,
}

impl View for ConsoleEntry {
    type V = EntryView;

    open spec fn view(&self) -> EntryView {
        EntryView {
            source: self.source,
            level: self.level,
            message: self.message@,
            timestamp: self.timestamp,
            wire: self.wire@,
        }
    }
}

/// The name of a level.
pub open spec fn level_name(level: ConsoleLevel) -> Seq<char> {
    match level {
        ConsoleLevel::Log => "log"@,
        ConsoleLevel::Error => "error"@,
        ConsoleLevel::Warn => "warn"@,
        ConsoleLevel::Info => "info"@,
        ConsoleLevel::Debug => "debug"@,
    }
}

/// The level of a name.
pub open spec fn level_of(name: Seq<char>) -> Option<ConsoleLevel> {
    if name == "log"@ {
        Some(ConsoleLevel::Log)
    } else if name == "error"@ {
        Some(ConsoleLevel::Error)
    } else if name == "warn"@ {
        Some(ConsoleLevel::Warn)
    } else if name == "info"@ {
        Some(ConsoleLevel::Info)
    } else if name == "debug"@ {
        Some(ConsoleLevel::Debug)
    } else {
        None
    }
}

/// The level of a name.
pub fn parse_level(name: &str) -> (r: Option<ConsoleLevel>)
    ensures
        r == level_of(name@),
{
    if same(name, "log") {
        Some(ConsoleLevel::Log)
    } else if same(name, "error") {
        Some(ConsoleLevel::Error)
    } else if same(name, "warn") {
        Some(ConsoleLevel::Warn)
    } else if same(name, "info") {
        Some(ConsoleLevel::Info)
    } else if same(name, "debug") {
        Some(ConsoleLevel::Debug)
    } else {
        None
    }
}

/// What an entry is called: an exception is one, anything else goes by its level.
pub open spec fn entry_label(e: EntryView) -> Seq<char> {
    match e.source {
        ConsoleSource::Exception => "exception"@,
        ConsoleSource::Console => level_name(e.level),
    }
}

impl ConsoleEntry {
    /// What the entry is called.
    pub fn label(&self) -> (r: &'static str)
        ensures
            r@ == entry_label(self@),
    {
        match self.source {
            ConsoleSource::Exception => "exception",
            ConsoleSource::Console => match self.level {
                ConsoleLevel::Log => "log",
                ConsoleLevel::Error => "error",
                ConsoleLevel::Warn => "warn",
                ConsoleLevel::Info => "info",
                ConsoleLevel::Debug => "debug",
            },
        }
    }
}

/// `[timestamp] [label] message`.
pub open spec fn entry_row(e: EntryView) -> Seq<char> {
    "["@ + text::decimal(e.timestamp as nat) + "] ["@ + entry_label(e) + "] "@ + text::one_line(
        e.message,
    )
}

/// One row: the time, which a later read can start from, then what the entry is and says.
pub fn console_row(e: &ConsoleEntry) -> (r: String)
    ensures
        r@ == entry_row(e@),
{
    "[".to_owned().concat(dec(e.timestamp).as_str()).concat("] [").concat(e.label()).concat(
        "] ",
    ).concat(line_safe(e.message.as_str()).as_str())
}

/// The response to `console`: the entries, or a confirmation.
pub enum ConsoleData {
    Entries { entries: Vec<ConsoleEntry>, truncated: bool, covers_load: bool },
    Done { success: bool, error: Option<WebPilotError> },
}

/// The level that a command reads: `None` for all of them.
pub open spec fn wanted_level(command: ConsoleCommand) -> Option<Seq<char>> {
    match command {
        ConsoleCommand::Read { level: Some(l), .. } => Some(l@),
        _ => None,
    }
}

/// The entries that a command reads.
pub open spec fn entries_read(entries: Seq<EntryView>, level: Option<ConsoleLevel>) -> Seq<
    EntryView,
> {
    match level {
        Some(l) => model::picked(entries, |e: EntryView| e.level == l),
        None => entries,
    }
}

/// What a read prints: its rows, and under them what the rows may leave out.
pub open spec fn read_output(
    read: Seq<EntryView>,
    truncated: bool,
    covers_load: bool,
    partial_note: Seq<char>,
) -> OutputView {
    let rows = text::joined(Seq::new(read.len(), |i: int| entry_row(read[i])), "\n"@);
    let h1 = if truncated {
        output::noted(
            rows,
            "--- console buffer at capacity — older entries may have been dropped ---"@,
        )
    } else {
        rows
    };
    let h2 = if !covers_load {
        output::noted(h1, partial_note)
    } else {
        h1
    };
    OutputView::Data(
        JsonView::object().with(
            "entries"@,
            JsonView::Array(Seq::new(read.len(), |i: int| read[i].wire)),
        ).with("truncated"@, JsonView::Bool(truncated)).with(
            "covers_load"@,
            JsonView::Bool(covers_load),
        ),
        h2,
    )
}

/// What `console` prints.
pub open spec fn run_outcome(
    command: ConsoleCommand,
    reply: Reply<ConsoleData>,
    partial_note: Seq<char>,
) -> Result<OutputView, ErrorView> {
    match reply {
        Reply::Data(ConsoleData::Entries { entries, truncated, covers_load }) => {
            let all = model::each(entries@);
            match wanted_level(command) {
                Some(name) => match level_of(name) {
                    Some(level) => Ok(
                        read_output(
                            entries_read(all, Some(level)),
                            truncated,
                            covers_load,
                            partial_note,
                        ),
                    ),
                    None => Err(
                        ErrorView::InvalidArgument("unknown console level '"@ + name + "'"@),
                    ),
                },
                None => Ok(read_output(all, truncated, covers_load, partial_note)),
            }
        },
        Reply::Data(ConsoleData::Done { success, error }) => if success {
            Ok(OutputView::Message("OK"@))
        } else {
            Err(protocol::failure(model::maybe(error)))
        },
        _ => Err(protocol::no_data(reply)),
    }
}

fn read_rows(entries: &Vec<ConsoleEntry>, level: Option<ConsoleLevel>) -> (r: (
    Vec<Json>,
    Vec<String>,
))
    ensures
        ({
            let read = entries_read(model::each(entries@), level);
            &&& json::views(r.0@) == Seq::new(read.len(), |i: int| read[i].wire)
            &&& text::texts(r.1@) == Seq::new(read.len(), |i: int| entry_row(read[i]))
        }),
{
    let ghost all = model::each(entries@);
    let mut wires: Vec<Json> = Vec::new();
    let mut rows: Vec<String> = Vec::new();
    for i in 0..entries.len()
        invariant
            all == model::each(entries@),
            wires@.len() == entries_read(all.take(i as int), level).len(),
            rows@.len() == wires@.len(),
            forall|j: int|
                0 <= j < wires@.len() ==> (#[trigger] wires@[j])@ == entries_read(
                    all.take(i as int),
                    level,
                )[j].wire,
            forall|j: int|
                0 <= j < rows@.len() ==> (#[trigger] rows@[j])@ == entry_row(
                    entries_read(all.take(i as int), level)[j],
                ),
    {
        assert(all.take(i + 1).drop_last() =~= all.take(i as int));
        assert(all.take(i + 1).last() == entries@[i as int]@);
        let wanted = match level {
            Some(l) => entries[i].level == l,
            None => true,
        };
        if wanted {
            wires.push(entries[i].wire.copy());
            rows.push(console_row(&entries[i]));
        }
    }
    proof {
        assert(all.take(entries@.len() as int) =~= all);
        let read = entries_read(all, level);
        json::lemma_views_index(wires@);
        text::lemma_texts_index(rows@);
        assert(json::views(wires@) =~= Seq::new(read.len(), |i: int| read[i].wire));
        assert(text::texts(rows@) =~= Seq::new(read.len(), |i: int| entry_row(read[i])));
    }
    (wires, rows)
}

/// What `console` prints. `partial_note` says that the recorder missed the page's beginning.
pub fn run(command: &ConsoleCommand, reply: Reply<ConsoleData>, partial_note: &str) -> (r: Result<
    CommandOutput,
    WebPilotError,
>)
    ensures
        error::outcome(r) == run_outcome(*command, reply, partial_note@),
{
    let data = match reply.data() {
        Ok(d) => d,
        Err(e) => {
            return Err(e);
        },
    };
    match data {
        ConsoleData::Entries { entries, truncated, covers_load } => {
            let level = match command {
                ConsoleCommand::Read { level: Some(name), .. } => match parse_level(
                    name.as_str(),
                ) {
                    Some(l) => Some(l),
                    None => {
                        return Err(
                            WebPilotError::InvalidArgument {
                                detail: "unknown console level '".to_owned().concat(
                                    name.as_str(),
                                ).concat("'"),
                            },
                        );
                    },
                },
                _ => None,
            };
            let (wires, rows) = read_rows(&entries, level);
            let mut human = join(&rows, "\n");
            if truncated {
                push_note(
                    &mut human,
                    "--- console buffer at capacity — older entries may have been dropped ---",
                );
            }
            if !covers_load {
                push_note(&mut human, partial_note);
            }
            let json = Json::object().with("entries", Json::Array(wires)).with(
                "truncated",
                Json::Bool(truncated),
            ).with("covers_load", Json::Bool(covers_load));
            Ok(CommandOutput::Data { json, human })
        },
        ConsoleData::Done { success, error } => lift_error(
            success,
            error,
            CommandOutput::Message("OK".to_owned()),
        ),
    }
}

/// A read shows exactly the entries of the level that was asked for, all of them where none was, in
/// their order, and tells whether some may be missing; a level that there is none of is refused.
pub proof fn law_entries_are_read(
    command: ConsoleCommand,
    entries: Vec<ConsoleEntry>,
    truncated: bool,
    covers_load: bool,
    partial_note: &str,
    r: Result<CommandOutput, WebPilotError>,
) -> (at: Seq<int>)
    requires
        call_ensures(
            run,
            (
                &command,
                Reply::Data((ConsoleData::Entries { entries, truncated, covers_load })),
                partial_note,
            ),
            r,
        ),
    ensures
        ({
            let asked = command is Read && command->level is Some;
            let name = command->level->0@;
            let known = name == "log"@ || name == "error"@ || name == "warn"@ || name == "info"@
                || name == "debug"@;
            let wanted = |e: ConsoleEntry|
                !asked || (e.level == ConsoleLevel::Log && name == "log"@) || (e.level
                    == ConsoleLevel::Error && name == "error"@) || (e.level == ConsoleLevel::Warn
                    && name == "warn"@) || (e.level == ConsoleLevel::Info && name == "info"@) || (
                e.level == ConsoleLevel::Debug && name == "debug"@);
            &&& asked && !known ==> (r matches Err(WebPilotError::InvalidArgument { .. }))
            &&& !asked || known ==> {
                &&& forall|i: int, j: int| 0 <= i < j < at.len() ==> at[i] < at[j]
                &&& forall|i: int| 0 <= i < at.len() ==> 0 <= #[trigger] at[i] < entries@.len()
                &&& forall|k: int|
                    0 <= k < entries@.len() ==> (at.contains(k) <==> wanted(#[trigger] entries@[k]))
                &&& r matches Ok(CommandOutput::Data { json, human }) && {
                    &&& json@.get("entries"@) matches Some(JsonView::Array(list)) && list.len()
                        == at.len() && forall|i: int|
                        0 <= i < at.len() ==> #[trigger] list[i] == entries@[at[i]].wire@
                    &&& json@.get("truncated"@) == Some(JsonView::Bool(truncated))
                    &&& json@.get("covers_load"@) == Some(JsonView::Bool(covers_load))
                    &&& text::has_prefix(
                        human@,
                        text::joined(
                            Seq::new(at.len(), |i: int| entry_row(entries@[at[i]]@)),
                            "\n"@,
                        ),
                    )
                    &&& !truncated && covers_load ==> human@ == text::joined(
                        Seq::new(at.len(), |i: int| entry_row(entries@[at[i]]@)),
                        "\n"@,
                    )
                    &&& !covers_load ==> text::has_suffix(human@, partial_note@)
                }
            }
        }),
{
    reveal_strlit("log");
    reveal_strlit("error");
    reveal_strlit("warn");
    reveal_strlit("info");
    reveal_strlit("debug");
    assert("log"@.len() == 3);
    assert("error"@.len() == 5);
    assert("warn"@.len() == 4);
    assert("info"@.len() == 4);
    assert("debug"@.len() == 5);
    assert("error"@[0] != "debug"@[0]);
    assert("warn"@[0] != "info"@[0]);
    reveal_strlit("entries");
    reveal_strlit("truncated");
    reveal_strlit("covers_load");
    assert("entries"@.len() == 7);
    assert("truncated"@.len() == 9);
    assert("covers_load"@.len() == 11);
    let all = model::each(entries@);
    let level = match wanted_level(command) {
        Some(name) => level_of(name),
        None => None,
    };
    let pick = |e: EntryView| level is None || e.level == level->0;
    let at = model::law_picked_in_order(all, pick);
    let read = model::picked(all, pick);
    if level is None {
        lemma_all_read(all, pick);
    } else {
        lemma_same_read(all, pick, |e: EntryView| e.level == level->0);
    }
    assert(entries_read(all, level) == read);
    assert forall|k: int| 0 <= k < entries@.len() implies (at.contains(k) <==> (level is None || (
    #[trigger] entries@[k]).level == level->0)) by {
        assert(all[k] == entries@[k]@);
        assert(pick(all[k]) == (level is None || entries@[k].level == level->0));
    }
    let rows = Seq::new(read.len(), |i: int| entry_row(read[i]));
    assert(rows =~= Seq::new(at.len(), |i: int| entry_row(entries@[at[i]]@)));
    let shown = text::joined(rows, "\n"@);
    let cap = "--- console buffer at capacity — older entries may have been dropped ---"@;
    let h1 = if truncated {
        output::noted(shown, cap)
    } else {
        shown
    };
    lemma_noted(shown, cap);
    lemma_noted(h1, partial_note@);
    text::lemma_front(shown, Seq::empty());
    assert(shown + Seq::<char>::empty() =~= shown);
    lemma_prefix_of_prefix(
        if !covers_load {
            output::noted(h1, partial_note@)
        } else {
            h1
        },
        h1,
        shown,
    );
    at
}

proof fn lemma_noted(human: Seq<char>, note: Seq<char>)
    ensures
        text::has_prefix(output::noted(human, note), human),
        text::has_suffix(output::noted(human, note), note),
        text::has_prefix(human, human),
{
    text::lemma_front(human, note);
    text::lemma_front(human, seq!['\n'] + note);
    assert(human.push('\n') + note =~= human + (seq!['\n'] + note));
    text::lemma_back(human, note);
    text::lemma_back(human.push('\n'), note);
    assert(human.take(human.len() as int) =~= human);
}

proof fn lemma_prefix_of_prefix(a: Seq<char>, b: Seq<char>, c: Seq<char>)
    requires
        text::has_prefix(a, b),
        text::has_prefix(b, c),
    ensures
        text::has_prefix(a, c),
{
    assert(a.take(c.len() as int) =~= b.take(c.len() as int));
}

proof fn lemma_all_read<V>(items: Seq<V>, pick: spec_fn(V) -> bool)
    requires
        forall|v: V| #[trigger] pick(v),
    ensures
        model::picked(items, pick) == items,
    decreases items.len(),
{
    if items.len() > 0 {
        lemma_all_read(items.drop_last(), pick);
        assert(pick(items.last()));
        assert(items.drop_last().push(items.last()) =~= items);
    } else {
        assert(items =~= Seq::empty());
    }
}

proof fn lemma_same_read<V>(items: Seq<V>, a: spec_fn(V) -> bool, b: spec_fn(V) -> bool)
    requires
        forall|v: V| #[trigger] a(v) == b(v),
    ensures
        model::picked(items, a) == model::picked(items, b),
    decreases items.len(),
{
    if items.len() > 0 {
        lemma_same_read(items.drop_last(), a, b);
        assert(a(items.last()) == b(items.last()));
    }
}

/// A row shows when an entry was made, what it is called and what it says; an error that nothing
/// caught is called an exception, whatever its level.
pub proof fn law_rows_show_their_entries(e: ConsoleEntry, r: String)
    requires
        call_ensures(console_row, (&e,), r),
    ensures
        r@ == "["@ + text::decimal(e.timestamp as nat) + "] ["@ + (if e.source
            == ConsoleSource::Exception {
            "exception"@
        } else {
            match e.level {
                ConsoleLevel::Log => "log"@,
                ConsoleLevel::Error => "error"@,
                ConsoleLevel::Warn => "warn"@,
                ConsoleLevel::Info => "info"@,
                ConsoleLevel::Debug => "debug"@,
            }
        }) + "] "@ + text::one_line(e.message@),
{
}

/// A level has one of five names, and a name is read as the level that it names; an entry goes by the
/// name of its level, and an exception by its own.
pub proof fn law_levels_are_named(e: ConsoleEntry, label: &'static str, name: &str, r: Option<ConsoleLevel>)
    requires
        call_ensures(ConsoleEntry::label, (&e,), label),
        call_ensures(parse_level, (name,), r),
    ensures
        e.source is Exception ==> label@ == "exception"@,
        e.source is Console && name@ == label@ ==> r == Some(e.level),
        r == Some(ConsoleLevel::Log) <==> name@ == "log"@,
        r == Some(ConsoleLevel::Error) <==> name@ == "error"@,
        r == Some(ConsoleLevel::Warn) <==> name@ == "warn"@,
        r == Some(ConsoleLevel::Info) <==> name@ == "info"@,
        r == Some(ConsoleLevel::Debug) <==> name@ == "debug"@,
{
    reveal_strlit("log");
    reveal_strlit("error");
    reveal_strlit("warn");
    reveal_strlit("info");
    reveal_strlit("debug");
    assert("log"@.len() == 3);
    assert("error"@.len() == 5);
    assert("warn"@.len() == 4);
    assert("info"@.len() == 4);
    assert("debug"@.len() == 5);
    assert("error"@[0] != "debug"@[0]);
    assert("warn"@[0] != "info"@[0]);
}

} // verus!
