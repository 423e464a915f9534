//! Contexts: parts of the browser that are kept apart, each with a file that remembers it.
use crate::headless;
use crate::headless::{array_of, field_is, Failure, FailureView};
use crate::json::{Json, JsonView};
use crate::model;
use crate::output::{CommandOutput, OutputView};
use crate::text;
use crate::text::{dec, ends_with, hex_char, same, starts_with};
use vstd::prelude::*;
use vstd::string::StringExecFns;

verus! {

/// How many contexts there may be.
pub const MAX_CONTEXTS: usize = 16;

/// How long a context lives unused, in seconds.
pub const DEFAULT_TTL_SECS: u64 = 3600;

/// What the file of a context remembers.
#[derive(Debug, PartialEq, Eq)]
pub struct ContextEntry {
    pub name: String,
    pub cwd: String,
    pub browser_context_id: String,
    pub target_id: String,
    pub chrome_pid: i32,
    pub created_at: u64,
    pub last_used: u64,
}

/// What a context is.
pub struct EntryView {
    pub name: Seq<char>,
    pub cwd: Seq<char>,
    pub browser_context_id: Seq<char>,
    pub target_id: Seq<char>,
    pub chrome_pid: i32,
    pub created_at: u64,
    pub last_used: u64,
}

impl View for ContextEntry {
    type V = EntryView;

    open spec fn view(&self) -> EntryView {
        EntryView {
            name: self.name@,
            cwd: self.cwd@,
            browser_context_id: self.browser_context_id@,
            target_id: self.target_id@,
            chrome_pid: self.chrome_pid,
            created_at: self.created_at,
            last_used: self.last_used,
        }
    }
}

/// A number in hexadecimal, with as many digits as asked for or more where it needs them.
pub open spec fn hex(n: nat, digits: nat) -> Seq<char>
    decreases n, digits,
{
    if n == 0 && digits == 0 {
        Seq::empty()
    } else {
        hex(n / 16, if digits == 0 {
            0
        } else {
            (digits - 1) as nat
        }).push(text::hex_digit((n % 16) as int))
    }
}

fn push_hex(s: &mut String, n: u64, digits: usize)
    ensures
        final(s)@ == old(s)@ + hex(n as nat, digits as nat),
    decreases n, digits,
{
    if n == 0 && digits == 0 {
        assert(s@ =~= old(s)@ + hex(0, 0));
        return;
    }
    let fewer: usize = if digits == 0 {
        0
    } else {
        digits - 1
    };
    let ghost before = s@;
    push_hex(s, n / 16, fewer);
    s.push(hex_char((n % 16) as u8));
    assert(s@ =~= before + hex(n as nat, digits as nat));
}

/// The name of a context's file, by the hash of the context's name.
pub fn context_file_name(hash: u64) -> (r: String)
    ensures
        r@ == "ctx-"@ + hex(hash as nat, 12) + ".json"@,
{
    let mut name = "ctx-".to_owned();
    push_hex(&mut name, hash, 12);
    name.concat(".json")
}

/// Whether a file is that of a context.
pub open spec fn is_context_name(name: Seq<char>) -> bool {
    text::has_prefix(name, "ctx-"@) && text::has_suffix(name, ".json"@)
}

/// Whether a file is that of a context.
pub fn is_context_file(name: &str) -> (r: bool)
    ensures
        r == is_context_name(name@),
{
    starts_with(name, "ctx-") && ends_with(name, ".json")
}

/// What becomes of a context that was made before.
#[derive(Debug, PartialEq, Eq)]
pub enum Resume {
    /// It is of another browser, or gone: its file goes and a new context is made.
    Discard,
    /// The browser is to be asked which contexts it has.
    AskContexts,
    /// The browser is to be asked which pages it has.
    AskTargets,
    /// Its page is still there.
    Reuse,
    /// Its page is gone: it gets a new one.
    Recreate,
}

/// Whether a target is the page of a context.
pub open spec fn is_page_of(target: JsonView, entry: EntryView) -> bool {
    target.get_str("targetId"@) == Some(entry.target_id) && headless::is_page(target)
}

/// Whether the page of a context is still there.
pub open spec fn keeps_page(targets: Seq<JsonView>, entry: EntryView) -> bool {
    exists|i: int| 0 <= i < targets.len() && is_page_of(#[trigger] targets[i], entry)
}

fn has_page(targets: &Vec<Json>, entry: &ContextEntry) -> (r: bool)
    ensures
        r == keeps_page(model::each(targets@), entry@),
{
    let ghost all = model::each(targets@);
    for i in 0..targets.len()
        invariant
            all == model::each(targets@),
            forall|k: int| 0 <= k < i ==> !is_page_of(#[trigger] all[k], entry@),
    {
        assert(all[i as int] == targets@[i as int]@);
        if field_is(&targets[i], "targetId", entry.target_id.as_str()) && field_is(
            &targets[i],
            "type",
            "page",
        ) {
            assert(is_page_of(all[i as int], entry@));
            return true;
        }
    }
    false
}

/// What becomes of a context that was made before, as far as is known.
pub open spec fn resumed(
    entry: EntryView,
    pid: i32,
    live: Option<Seq<Seq<char>>>,
    targets: Option<Seq<JsonView>>,
) -> Resume {
    if entry.chrome_pid != pid {
        Resume::Discard
    } else {
        match live {
            None => Resume::AskContexts,
            Some(ids) => if !ids.contains(entry.browser_context_id) {
                Resume::Discard
            } else {
                match targets {
                    None => Resume::AskTargets,
                    Some(ts) => if keeps_page(ts, entry) {
                        Resume::Reuse
                    } else {
                        Resume::Recreate
                    },
                }
            },
        }
    }
}

fn among(ids: &Vec<String>, id: &str) -> (r: bool)
    ensures
        r == text::texts(ids@).contains(id@),
{
    proof {
        text::lemma_texts_index(ids@);
    }
    for i in 0..ids.len()
        invariant
            text::texts(ids@).len() == ids@.len(),
            forall|j: int| 0 <= j < ids@.len() ==> #[trigger] text::texts(ids@)[j] == ids@[j]@,
            forall|j: int| 0 <= j < i ==> #[trigger] text::texts(ids@)[j] != id@,
    {
        assert(text::texts(ids@)[i as int] == ids@[i as int]@);
        if same(ids[i].as_str(), id) {
            return true;
        }
    }
    false
}

/// The model of a list of strings that may not be known.
pub open spec fn known(ids: Option<&Vec<String>>) -> Option<Seq<Seq<char>>> {
    match ids {
        Some(v) => Some(text::texts(v@)),
        None => None,
    }
}

/// The model of targets that may not be known.
pub open spec fn known_targets(targets: Option<&Vec<Json>>) -> Option<Seq<JsonView>> {
    match targets {
        Some(v) => Some(model::each(v@)),
        None => None,
    }
}

/// What becomes of a context that was made before. The browser is asked for nothing that does not
/// matter.
pub fn resume(
    entry: &ContextEntry,
    pid: i32,
    live: Option<&Vec<String>>,
    targets: Option<&Vec<Json>>,
) -> (r: Resume)
    ensures
        r == resumed(entry@, pid, known(live), known_targets(targets)),
{
    if entry.chrome_pid != pid {
        return Resume::Discard;
    }
    match live {
        None => Resume::AskContexts,
        Some(ids) => {
            if !among(ids, entry.browser_context_id.as_str()) {
                return Resume::Discard;
            }
            match targets {
                None => Resume::AskTargets,
                Some(ts) => {
                    if has_page(ts, entry) {
                        Resume::Reuse
                    } else {
                        Resume::Recreate
                    }
                },
            }
        },
    }
}

/// The context as it is remembered once it was used, with the page it has now.
pub fn touched(entry: ContextEntry, target_id: String, now: u64) -> (r: ContextEntry)
    ensures
        r@ == (EntryView { target_id: target_id@, last_used: now, ..entry@ }),
{
    ContextEntry { target_id, last_used: now, ..entry }
}

/// Whether another context may be made beside those whose files there are.
pub fn check_room(names: &Vec<String>) -> (r: Result<(), Failure>)
    ensures
        ({
            let n = count_contexts(text::texts(names@));
            match r {
                Ok(_) => n < MAX_CONTEXTS,
                Err(e) => n >= MAX_CONTEXTS && e@ == FailureView::Plain(
                    "Maximum "@ + text::decimal(MAX_CONTEXTS as nat)
                        + " contexts active. Close unused: webpilot context close NAME"@,
                ),
            }
        }),
{
    let mut n: usize = 0;
    let ghost all = text::texts(names@);
    proof {
        text::lemma_texts_index(names@);
        assert(all.take(0) =~= Seq::empty());
    }
    for i in 0..names.len()
        invariant
            all.len() == names@.len(),
            forall|j: int| 0 <= j < names@.len() ==> (#[trigger] names@[j])@ == all[j],
            n == count_contexts(all.take(i as int)),
            n <= i,
    {
        proof {
            assert(all.take(i + 1).drop_last() =~= all.take(i as int));
            assert(all.take(i + 1).last() == names@[i as int]@);
        }
        if starts_with(names[i].as_str(), "ctx-") {
            n += 1;
        }
    }
    assert(all.take(names@.len() as int) =~= all);
    if n >= MAX_CONTEXTS {
        return Err(
            Failure::Plain(
                "Maximum ".to_owned().concat(dec(MAX_CONTEXTS as u64).as_str()).concat(
                    " contexts active. Close unused: webpilot context close NAME",
                ),
            ),
        );
    }
    Ok(())
}

/// How many files are those of contexts, by the start of their names.
pub open spec fn count_contexts(names: Seq<Seq<char>>) -> nat
    decreases names.len(),
{
    if names.len() == 0 {
        0
    } else {
        count_contexts(names.drop_last()) + if text::has_prefix(names.last(), "ctx-"@) {
            1nat
        } else {
            0nat
        }
    }
}

/// A context that was just made.
pub fn new_entry(
    name: &str,
    cwd: &str,
    browser_context_id: &str,
    target_id: &str,
    chrome_pid: i32,
    now: u64,
) -> (r: ContextEntry)
    ensures
        r@ == (EntryView {
            name: name@,
            cwd: cwd@,
            browser_context_id: browser_context_id@,
            target_id: target_id@,
            chrome_pid,
            created_at: now,
            last_used: now,
        }),
{
    ContextEntry {
        name: name.to_owned(),
        cwd: cwd.to_owned(),
        browser_context_id: browser_context_id.to_owned(),
        target_id: target_id.to_owned(),
        chrome_pid,
        created_at: now,
        last_used: now,
    }
}

/// What becomes of a context's file when old contexts are cleared away.
#[derive(Debug, Clone, Copy, PartialEq, Eq, Structural)]
pub enum Sweep {
    Keep,
    /// The file goes.
    Remove,
    /// The context goes, then its file.
    DisposeAndRemove,
}

/// What becomes of a context's file. A file that cannot be read as a context, or that is of another
/// browser, goes by itself; one that was not used for too long goes with its context.
pub fn sweep(entry: Option<&ContextEntry>, pid: i32, now: u64, ttl: u64) -> (r: Sweep)
    requires
        match entry {
            Some(e) => e.chrome_pid == pid ==> e.last_used <= now,
            None => true,
        },
    ensures
        r == (match entry {
            None => Sweep::Remove,
            Some(e) => if e.chrome_pid != pid {
                Sweep::Remove
            } else if now - e.last_used > ttl {
                Sweep::DisposeAndRemove
            } else {
                Sweep::Keep
            },
        }),
{
    match entry {
        None => Sweep::Remove,
        Some(e) => {
            if e.chrome_pid != pid {
                Sweep::Remove
            } else if now - e.last_used > ttl {
                Sweep::DisposeAndRemove
            } else {
                Sweep::Keep
            }
        },
    }
}

/// A context as JSON.
pub open spec fn entry_json(e: EntryView) -> JsonView {
    JsonView::object().with("name"@, JsonView::Str(e.name)).with(
        "cwd"@,
        JsonView::Str(e.cwd),
    ).with("browser_context_id"@, JsonView::Str(e.browser_context_id)).with(
        "target_id"@,
        JsonView::Str(e.target_id),
    ).with("chrome_pid"@, JsonView::integer(e.chrome_pid as int)).with(
        "created_at"@,
        JsonView::number(e.created_at),
    ).with("last_used"@, JsonView::number(e.last_used))
}

/// A context as JSON, as its file holds it.
pub fn to_json(e: &ContextEntry) -> (r: Json)
    ensures
        r@ == entry_json(e@),
{
    Json::object().with("name", Json::string(e.name.as_str())).with(
        "cwd",
        Json::string(e.cwd.as_str()),
    ).with("browser_context_id", Json::string(e.browser_context_id.as_str())).with(
        "target_id",
        Json::string(e.target_id.as_str()),
    ).with("chrome_pid", Json::integer(e.chrome_pid as i64)).with(
        "created_at",
        Json::number(e.created_at),
    ).with("last_used", Json::number(e.last_used))
}

/// `  name (age old) — directory`.
pub open spec fn row(e: EntryView, now: u64) -> Seq<char> {
    "  "@ + e.name + " ("@ + text::decimal((now - e.created_at) as nat) + "s old) — "@ + e.cwd
}

/// What a listing prints.
pub fn list(entries: &Vec<ContextEntry>, now: u64) -> (r: CommandOutput)
    requires
        forall|i: int| 0 <= i < entries@.len() ==> (#[trigger] entries@[i]).created_at <= now,
    ensures
        r@ == ({
            let all = model::each(entries@);
            OutputView::List(
                JsonView::Array(Seq::new(all.len(), |i: int| entry_json(all[i]))),
                if all.len() == 0 {
                    seq!["No active contexts"@]
                } else {
                    Seq::new(all.len(), |i: int| row(all[i], now))
                },
                if all.len() == 0 {
                    Seq::empty()
                } else {
                    text::decimal(all.len()) + " context(s)"@
                },
            )
        }),
{
    let ghost all = model::each(entries@);
    let mut items: Vec<Json> = Vec::new();
    let mut rows: Vec<String> = Vec::new();
    for i in 0..entries.len()
        invariant
            all == model::each(entries@),
            forall|i: int| 0 <= i < entries@.len() ==> (#[trigger] entries@[i]).created_at <= now,
            items@.len() == i,
            rows@.len() == i,
            forall|j: int| 0 <= j < i ==> (#[trigger] items@[j])@ == entry_json(all[j]),
            forall|j: int| 0 <= j < i ==> (#[trigger] rows@[j])@ == row(all[j], now),
    {
        let e = &entries[i];
        let age: u64 = now - e.created_at;
        rows.push(
            "  ".to_owned().concat(e.name.as_str()).concat(" (").concat(
                dec(age).as_str(),
            ).concat("s old) — ").concat(e.cwd.as_str()),
        );
        items.push(to_json(e));
    }
    let mut summary = String::new();
    if entries.len() == 0 {
        rows.push("No active contexts".to_owned());
        proof {
            text::lemma_texts_index(rows@);
            assert(text::texts(rows@) =~= seq!["No active contexts"@]);
            assert(summary@ =~= Seq::empty());
        }
    } else {
        summary = dec(entries.len() as u64).concat(" context(s)");
        proof {
            text::lemma_texts_index(rows@);
            assert(text::texts(rows@) =~= Seq::new(all.len(), |i: int| row(all[i], now)));
        }
    }
    assert(model::each(items@) =~= Seq::new(all.len(), |i: int| entry_json(all[i])));
    CommandOutput::List { items: array_of(items), human_lines: rows, summary }
}

/// Which contexts to close.
#[derive(Debug, PartialEq, Eq)]
pub enum Closing {
    All,
    One(String),
}

/// Which contexts to close: all of them, where that is asked for, else the one that is named.
pub fn closing(name: Option<String>, all: bool) -> (r: Result<Closing, Failure>)
    ensures
        match r {
            Ok(Closing::All) => all,
            Ok(Closing::One(n)) => !all && model::maybe(name) == Some(n@),
            Err(e) => !all && name is None && e@ == FailureView::Plain(
                "Specify a context name or --all"@,
            ),
        },
{
    if all {
        return Ok(Closing::All);
    }
    match name {
        Some(n) => Ok(Closing::One(n)),
        None => Err(Failure::Plain("Specify a context name or --all".to_owned())),
    }
}

/// What closing all contexts prints.
pub fn closed_all(count: u64) -> (r: CommandOutput)
    ensures
        r@ == OutputView::Message(
            "Closed "@ + text::decimal(count as nat) + " context(s)"@,
        ),
{
    CommandOutput::Message(
        "Closed ".to_owned().concat(dec(count).as_str()).concat(" context(s)"),
    )
}

/// What closing one context prints: there must be a file of it.
pub fn closed_one(name: &str, found: bool) -> (r: Result<CommandOutput, Failure>)
    ensures
        headless::outcome(r) == if found {
            Ok(OutputView::Message("Closed context '"@ + name@ + "'"@))
        } else {
            Err(FailureView::Plain("Context '"@ + name@ + "' not found"@))
        },
{
    if found {
        Ok(CommandOutput::Message("Closed context '".to_owned().concat(name).concat("'")))
    } else {
        Err(Failure::Plain("Context '".to_owned().concat(name).concat("' not found")))
    }
}

/// A context is gone on with only in the browser that made it, and only while that has it.
pub proof fn law_only_live_contexts_resume(
    entry: EntryView,
    pid: i32,
    live: Seq<Seq<char>>,
    targets: Seq<JsonView>,
)
    ensures
        ({
            let r = resumed(entry, pid, Some(live), Some(targets));
            (r is Reuse || r is Recreate) <==> entry.chrome_pid == pid && live.contains(
                entry.browser_context_id,
            )
        }),
{
}

/// What becomes of a context that was made before: one of another browser, or one that the browser no
/// longer has, is discarded; else it keeps its page while that is there, and gets a new one otherwise.
/// Nothing is asked that does not matter.
pub proof fn law_contexts_are_resumed(
    entry: ContextEntry,
    pid: i32,
    live: Vec<String>,
    targets: Vec<Json>,
    first: Resume,
    second: Resume,
    third: Resume,
)
    requires
        call_ensures(resume, (&entry, pid, None, None), first),
        call_ensures(resume, (&entry, pid, Some(&live), None), second),
        call_ensures(resume, (&entry, pid, Some(&live), Some(&targets)), third),
    ensures
        ({
            let ours = entry.chrome_pid == pid;
            let lives = exists|i: int|
                0 <= i < live@.len() && (#[trigger] live@[i])@ == entry.browser_context_id@;
            let has_its_page = exists|i: int|
                0 <= i < targets@.len() && (#[trigger] targets@[i])@.get("type"@) == Some(
                    JsonView::Str("page"@),
                ) && targets@[i]@.get("targetId"@) == Some(JsonView::Str(entry.target_id@));
            &&& !ours ==> first is Discard && second is Discard && third is Discard
            &&& ours ==> first is AskContexts
            &&& ours && !lives ==> second is Discard && third is Discard
            &&& ours && lives ==> second is AskTargets
            &&& ours && lives && has_its_page ==> third is Reuse
            &&& ours && lives && !has_its_page ==> third is Recreate
        }),
{
    text::lemma_texts_index(live@);
    let ids = text::texts(live@);
    if ids.contains(entry.browser_context_id@) {
        let i = choose|i: int| 0 <= i < ids.len() && ids[i] == entry.browser_context_id@;
        assert(live@[i]@ == entry.browser_context_id@);
    }
    if exists|i: int| 0 <= i < live@.len() && (#[trigger] live@[i])@ == entry.browser_context_id@ {
        let i = choose|i: int|
            0 <= i < live@.len() && (#[trigger] live@[i])@ == entry.browser_context_id@;
        assert(ids[i] == entry.browser_context_id@);
    }
    let all = model::each(targets@);
    if keeps_page(all, entry@) {
        let i = choose|i: int| 0 <= i < all.len() && is_page_of(#[trigger] all[i], entry@);
        assert(targets@[i]@ == all[i]);
    }
    if exists|i: int|
        0 <= i < targets@.len() && (#[trigger] targets@[i])@.get("type"@) == Some(
            JsonView::Str("page"@),
        ) && targets@[i]@.get("targetId"@) == Some(JsonView::Str(entry.target_id@)) {
        let i = choose|i: int|
            0 <= i < targets@.len() && (#[trigger] targets@[i])@.get("type"@) == Some(
                JsonView::Str("page"@),
            ) && targets@[i]@.get("targetId"@) == Some(JsonView::Str(entry.target_id@));
        assert(is_page_of(all[i], entry@));
    }
}

/// A new context remembers what it was made with, and was used when it was made; using it changes its
/// page and when it was used, and nothing else.
pub proof fn law_contexts_are_remembered(
    name: &str,
    cwd: &str,
    id: &str,
    target: &str,
    pid: i32,
    now: u64,
    made: ContextEntry,
    next: String,
    later: u64,
    used: ContextEntry,
)
    requires
        call_ensures(new_entry, (name, cwd, id, target, pid, now), made),
        call_ensures(touched, (made, next, later), used),
    ensures
        made.name@ == name@ && made.cwd@ == cwd@ && made.browser_context_id@ == id@,
        made.target_id@ == target@ && made.chrome_pid == pid,
        made.created_at == now && made.last_used == now,
        used.name@ == name@ && used.cwd@ == cwd@ && used.browser_context_id@ == id@,
        used.chrome_pid == pid && used.created_at == now,
        used.target_id@ == next@ && used.last_used == later,
{
}

/// The file of a context holds each of its fields under its name.
pub proof fn law_contexts_are_written(e: ContextEntry, r: Json)
    requires
        call_ensures(to_json, (&e,), r),
    ensures
        r@.get("name"@) == Some(JsonView::Str(e.name@)),
        r@.get("cwd"@) == Some(JsonView::Str(e.cwd@)),
        r@.get("browser_context_id"@) == Some(JsonView::Str(e.browser_context_id@)),
        r@.get("target_id"@) == Some(JsonView::Str(e.target_id@)),
        r@.get("created_at"@) == Some(JsonView::Num(crate::json::NumberView::Unsigned(e.created_at))),
        r@.get("last_used"@) == Some(JsonView::Num(crate::json::NumberView::Unsigned(e.last_used))),
        e.chrome_pid >= 0 ==> r@.get("chrome_pid"@) == Some(
            JsonView::Num(crate::json::NumberView::Unsigned(e.chrome_pid as u64)),
        ),
        e.chrome_pid < 0 ==> r@.get("chrome_pid"@) == Some(
            JsonView::Num(crate::json::NumberView::Negative(e.chrome_pid as i64)),
        ),
{
    reveal_strlit("name");
    reveal_strlit("cwd");
    reveal_strlit("browser_context_id");
    reveal_strlit("target_id");
    reveal_strlit("chrome_pid");
    reveal_strlit("created_at");
    reveal_strlit("last_used");
    assert("name"@.len() == 4);
    assert("cwd"@.len() == 3);
    assert("browser_context_id"@.len() == 18);
    assert("target_id"@.len() == 9);
    assert("chrome_pid"@.len() == 10);
    assert("created_at"@.len() == 10);
    assert("last_used"@.len() == 9);
    assert("target_id"@[0] != "last_used"@[0]);
    assert("chrome_pid"@[1] != "created_at"@[1]);
}

/// Another context may be made while there are fewer than sixteen: one more file of a context is one
/// more context, and any other file is none.
pub proof fn law_there_is_room_for_sixteen(
    names: Vec<String>,
    r: Result<(), Failure>,
    more: Seq<char>,
)
    requires
        call_ensures(check_room, (&names,), r),
    ensures
        r is Ok <==> count_contexts(text::texts(names@)) < 16,
        r matches Err(e) ==> e is Plain,
        count_contexts(Seq::empty()) == 0,
        count_contexts(text::texts(names@).push(more)) == count_contexts(text::texts(names@)) + (
        if more.len() >= 4 && more.take(4) == "ctx-"@ {
            1int
        } else {
            0
        }),
{
    reveal_strlit("ctx-");
    let all = text::texts(names@);
    assert(all.push(more).drop_last() =~= all);
}

/// A file that is no context's, or of another browser, goes by itself; one of a context that was not
/// used for longer than it may live goes with the context; any other stays.
pub proof fn law_old_contexts_are_swept(e: ContextEntry, pid: i32, now: u64, ttl: u64, r: Sweep, none: Sweep)
    requires
        e.last_used <= now,
        call_ensures(sweep, (Some(&e), pid, now, ttl), r),
        call_ensures(sweep, (None, pid, now, ttl), none),
    ensures
        none is Remove,
        r is Remove <==> e.chrome_pid != pid,
        r is DisposeAndRemove <==> e.chrome_pid == pid && e.last_used + ttl < now,
        r is Keep <==> e.chrome_pid == pid && now <= e.last_used + ttl,
{
}

/// The file of a context is known by its name; contexts with different hashes have different files.
pub proof fn law_context_files(a: u64, b: u64, of_a: String, of_b: String, name: &str, r: bool)
    requires
        call_ensures(context_file_name, (a,), of_a),
        call_ensures(context_file_name, (b,), of_b),
        call_ensures(is_context_file, (name,), r),
    ensures
        a != b ==> of_a@ != of_b@,
        text::has_prefix(of_a@, "ctx-"@) && text::has_suffix(of_a@, ".json"@),
        of_a@.len() >= 21,
        r <==> text::has_prefix(name@, "ctx-"@) && text::has_suffix(name@, ".json"@),
{
    reveal_strlit("ctx-");
    reveal_strlit(".json");
    let (x, y) = (hex(a as nat, 12), hex(b as nat, 12));
    lemma_hex_value(a as nat, 12);
    lemma_hex_value(b as nat, 12);
    assert(of_a@ =~= "ctx-"@ + (x + ".json"@));
    text::lemma_front("ctx-"@, x + ".json"@);
    text::lemma_back("ctx-"@ + x, ".json"@);
    if of_a@ == of_b@ {
        assert(of_a@.len() == 9 + x.len() && of_b@.len() == 9 + y.len());
        assert(x =~= of_a@.subrange(4, of_a@.len() - 5));
        assert(y =~= of_b@.subrange(4, of_b@.len() - 5));
    }
}

/// What hexadecimal digits stand for.
pub open spec fn hex_value(s: Seq<char>) -> nat
    decreases s.len(),
{
    if s.len() == 0 {
        0
    } else {
        let c = s.last();
        hex_value(s.drop_last()) * 16 + (if c <= '9' {
            (c as int - '0' as int) as nat
        } else {
            (c as int - 'a' as int + 10) as nat
        })
    }
}

proof fn lemma_hex_value(n: nat, digits: nat)
    ensures
        hex_value(hex(n, digits)) == n,
        hex(n, digits).len() >= digits,
    decreases n, digits,
{
    if n != 0 || digits != 0 {
        let fewer: nat = if digits == 0 {
            0
        } else {
            (digits - 1) as nat
        };
        lemma_hex_value(n / 16, fewer);
        let front = hex(n / 16, fewer);
        let all = hex(n, digits);
        assert(all == front.push(text::hex_digit((n % 16) as int)));
        assert(all.drop_last() =~= front);
        assert(n == (n / 16) * 16 + n % 16);
    }
}

/// A listing shows every context in its order, in JSON and on a row with its name, age and directory;
/// what is closed is told, and what is not found fails.
pub proof fn law_contexts_are_shown(
    entries: Vec<ContextEntry>,
    now: u64,
    r: CommandOutput,
    count: u64,
    all: CommandOutput,
    name: &str,
    found: bool,
    one: Result<CommandOutput, Failure>,
)
    requires
        forall|i: int| 0 <= i < entries@.len() ==> (#[trigger] entries@[i]).created_at <= now,
        call_ensures(list, (&entries, now), r),
        call_ensures(closed_all, (count,), all),
        call_ensures(closed_one, (name, found), one),
    ensures
        r matches CommandOutput::List { items, human_lines, summary } && {
            &&& items@ matches JsonView::Array(shown) && shown.len() == entries@.len() && forall|
                i: int,
            |
                0 <= i < entries@.len() ==> (#[trigger] shown[i]).get("name"@) == Some(
                    JsonView::Str(entries@[i].name@),
                ) && shown[i].get("target_id"@) == Some(JsonView::Str(entries@[i].target_id@))
            &&& entries@.len() > 0 ==> human_lines@.len() == entries@.len()
            &&& forall|i: int|
                0 <= i < entries@.len() ==> (#[trigger] human_lines@[i])@ == "  "@
                    + entries@[i].name@ + " ("@ + text::decimal(
                    (now - entries@[i].created_at) as nat,
                ) + "s old) — "@ + entries@[i].cwd@
        },
        all matches CommandOutput::Message(m) && text::holds(m@, text::decimal(count as nat)),
        one is Ok <==> found,
        one matches Ok(o) ==> (o matches CommandOutput::Message(m) && text::holds(m@, name@)),
        one matches Err(e) ==> (e matches Failure::Plain(m) && text::holds(m@, name@)),
{
    reveal_strlit("name");
    reveal_strlit("cwd");
    reveal_strlit("browser_context_id");
    reveal_strlit("target_id");
    reveal_strlit("chrome_pid");
    reveal_strlit("created_at");
    reveal_strlit("last_used");
    assert("name"@.len() == 4);
    assert("cwd"@.len() == 3);
    assert("browser_context_id"@.len() == 18);
    assert("target_id"@.len() == 9);
    assert("chrome_pid"@.len() == 10);
    assert("created_at"@.len() == 10);
    assert("last_used"@.len() == 9);
    assert("target_id"@[0] != "last_used"@[0]);
    assert("chrome_pid"@[1] != "created_at"@[1]);
    text::lemma_part("Closed "@, text::decimal(count as nat), " context(s)"@);
    text::lemma_part("Closed context '"@, name@, "'"@);
    text::lemma_part("Context '"@, name@, "' not found"@);
    if let CommandOutput::List { items, human_lines, summary } = r {
        text::lemma_texts_index(human_lines@);
        let views = model::each(entries@);
        assert forall|i: int| 0 <= i < entries@.len() implies (#[trigger] human_lines@[i])@ == row(
            views[i],
            now,
        ) by {
            assert(text::texts(human_lines@)[i] == human_lines@[i]@);
        }
    }
}

/// All contexts are closed where that is asked for, else the one that is named; without either it
/// fails.
pub proof fn law_closing_is_decided(name: Option<String>, all: bool, r: Result<Closing, Failure>)
    requires
        call_ensures(closing, (name, all), r),
    ensures
        all ==> r matches Ok(Closing::All),
        !all ==> (name matches Some(n) ==> r matches Ok(Closing::One(m)) && m@ == n@),
        !all && name is None ==> r is Err,
{
}

/// A context that is not used is kept for an hour.
pub proof fn law_contexts_are_kept_for_an_hour()
    ensures
        DEFAULT_TTL_SECS == 60 * 60,
{
}

} // verus!
