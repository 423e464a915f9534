//! `context`: the isolated browser contexts that agents work in.
use crate::error::{ErrorView, WebPilotError};
use crate::json;
use crate::json::{Json, JsonView};
use crate::model;
use crate::output::{CommandOutput, OutputView};
use crate::text;
use crate::text::{dec, line_safe, same};
use vstd::prelude::*;
use vstd::string::StringExecFns;

verus! {

broadcast use {text::group_texts, json::group_json_views};

/// The arguments of `context`.
#[derive(Debug, PartialEq, Eq)]
pub struct ContextArgs {
    pub command: ContextCommand,
}

/// What `context` does.
#[derive(Debug, PartialEq, Eq)]
pub enum ContextCommand {
    List,
    /// Closes the context of a name, or all of them.
    Close { name: Option<String>, all: bool },
}

/// A context on record, with the JSON that describes it.
#[derive(Debug, PartialEq, Eq)]
pub struct ContextEntry {
    pub name: String,
    pub browser_context_id: String,
    pub cwd: String,
    pub created_at: u64,
    pub wire: Json,
}

/// What a context is.
pub struct ContextView {
    pub name: Seq<char>,
    pub browser_context_id: Seq<char>,
    pub cwd: Seq<char>,
    pub created_at: u64,
    pub wire: JsonView,
}

impl View for ContextEntry {
    type V = ContextView;

    open spec fn view(&self) -> ContextView {
        ContextView {
            name: self.name@,
            browser_context_id: self.browser_context_id@,
            cwd: self.cwd@,
            created_at: self.created_at,
            wire: self.wire@,
        }
    }
}

/// The seconds since a time, none where it lies ahead.
pub open spec fn age(now: u64, then: u64) -> nat {
    if now > then {
        (now - then) as nat
    } else {
        0
    }
}

/// `  name (age old) — directory`.
pub open spec fn context_row(c: ContextView, now: u64) -> Seq<char> {
    "  "@ + text::one_line(c.name) + " ("@ + text::decimal(age(now, c.created_at)) + "s old) — "@
        + text::one_line(c.cwd)
}

fn row(c: &ContextEntry, now: u64) -> (r: String)
    ensures
        r@ == context_row(c@, now),
{
    let age: u64 = if now > c.created_at {
        now - c.created_at
    } else {
        0
    };
    "  ".to_owned().concat(line_safe(c.name.as_str()).as_str()).concat(" (").concat(
        dec(age).as_str(),
    ).concat("s old) — ").concat(line_safe(c.cwd.as_str()).as_str())
}

/// What a listing prints.
pub open spec fn contexts_output(contexts: Seq<ContextView>, now: u64) -> OutputView {
    OutputView::List(
        JsonView::Array(Seq::new(contexts.len(), |i: int| contexts[i].wire)),
        if contexts.len() == 0 {
            seq!["No active contexts"@]
        } else {
            Seq::new(contexts.len(), |i: int| context_row(contexts[i], now))
        },
        if contexts.len() == 0 {
            Seq::empty()
        } else {
            text::decimal(contexts.len()) + " context(s)"@
        },
    )
}

/// What a listing of the contexts on record prints.
pub fn list_contexts(contexts: &Vec<ContextEntry>, now: u64) -> (r: CommandOutput)
    ensures
        r@ == contexts_output(model::each(contexts@), now),
{
    let ghost all = model::each(contexts@);
    let mut wires: Vec<Json> = Vec::new();
    let mut rows: Vec<String> = Vec::new();
    for i in 0..contexts.len()
        invariant
            wires@.len() == i,
            rows@.len() == i,
            forall|j: int| 0 <= j < i ==> (#[trigger] wires@[j])@ == contexts@[j].wire@,
            forall|j: int| 0 <= j < i ==> (#[trigger] rows@[j])@ == context_row(contexts@[j]@, now),
    {
        wires.push(contexts[i].wire.copy());
        rows.push(row(&contexts[i], now));
    }
    proof {
        json::lemma_views_index(wires@);
        text::lemma_texts_index(rows@);
        assert(json::views(wires@) =~= Seq::new(all.len(), |i: int| all[i].wire));
        assert(text::texts(rows@) =~= Seq::new(all.len(), |i: int| context_row(all[i], now)));
    }
    let mut summary = String::new();
    if contexts.len() == 0 {
        rows.push("No active contexts".to_owned());
        assert(text::texts(rows@) =~= seq!["No active contexts"@]);
    } else {
        summary = dec(contexts.len() as u64).concat(" context(s)");
    }
    CommandOutput::List { items: Json::Array(wires), human_lines: rows, summary }
}

/// Whether a context may be closed: one's own always, another only where no live process holds it.
pub open spec fn may_close(own: Option<Seq<char>>, id: Seq<char>, free: bool) -> bool {
    own == Some(id) || free
}

fn is_own(own: &Option<String>, id: &str) -> (r: bool)
    ensures
        r == (model::maybe(*own) == Some(id@)),
{
    match own {
        Some(o) => same(o.as_str(), id),
        None => false,
    }
}

/// What became of a context in a sweep.
#[derive(Debug, Clone, Copy, PartialEq, Eq, Structural)]
pub enum Swept {
    Closed,
    InUse,
    Failed,
}

/// What becomes of a context in a sweep: one that another process holds is left running, and one
/// that could not be disposed of stays on record.
pub open spec fn sweep_one(own: Option<Seq<char>>, id: Seq<char>, free: bool, disposed: bool) -> Swept {
    if !may_close(own, id, free) {
        Swept::InUse
    } else if disposed {
        Swept::Closed
    } else {
        Swept::Failed
    }
}

/// Whether a sweep disposes of a context.
pub fn sweeps(own: &Option<String>, id: &str, free: bool) -> (r: bool)
    ensures
        r == may_close(model::maybe(*own), id@, free),
        r <==> sweep_one(model::maybe(*own), id@, free, true) != Swept::InUse,
{
    is_own(own, id) || free
}

/// What became of a context in a sweep. `disposed` counts only where the sweep disposes of it.
pub fn swept(own: &Option<String>, id: &str, free: bool, disposed: bool) -> (r: Swept)
    ensures
        r == sweep_one(model::maybe(*own), id@, free, disposed),
{
    if !sweeps(own, id, free) {
        Swept::InUse
    } else if disposed {
        Swept::Closed
    } else {
        Swept::Failed
    }
}

/// How many contexts a sweep closed, left in use, and failed to close.
pub struct Tally {
    pub closed: u64,
    pub in_use: u64,
    pub failed: u64,
}

/// How often something became of a context.
pub open spec fn times(swept: Seq<Swept>, kind: Swept) -> nat
    decreases swept.len(),
{
    if swept.len() == 0 {
        0
    } else {
        times(swept.drop_last(), kind) + (if swept.last() == kind {
            1nat
        } else {
            0nat
        })
    }
}

/// No more contexts are counted than were swept.
pub proof fn lemma_times_bounded(swept: Seq<Swept>, kind: Swept)
    ensures
        times(swept, kind) <= swept.len(),
    decreases swept.len(),
{
    if swept.len() > 0 {
        lemma_times_bounded(swept.drop_last(), kind);
    }
}

/// The tally of a sweep.
pub fn tally(swept: &Vec<Swept>) -> (r: Tally)
    ensures
        r.closed == times(swept@, Swept::Closed),
        r.in_use == times(swept@, Swept::InUse),
        r.failed == times(swept@, Swept::Failed),
{
    let mut t = Tally { closed: 0, in_use: 0, failed: 0 };
    assert(swept@.take(0) =~= Seq::empty());
    for i in 0..swept.len()
        invariant
            t.closed == times(swept@.take(i as int), Swept::Closed),
            t.in_use == times(swept@.take(i as int), Swept::InUse),
            t.failed == times(swept@.take(i as int), Swept::Failed),
            t.closed <= i,
            t.in_use <= i,
            t.failed <= i,
            i <= swept.len(),
    {
        assert(swept@.take(i + 1).drop_last() =~= swept@.take(i as int));
        match swept[i] {
            Swept::Closed => {
                t.closed = t.closed + 1;
            },
            Swept::InUse => {
                t.in_use = t.in_use + 1;
            },
            Swept::Failed => {
                t.failed = t.failed + 1;
            },
        }
    }
    assert(swept@.take(swept@.len() as int) =~= swept@);
    t
}

/// What a sweep prints.
pub open spec fn sweep_message(closed: nat, in_use: nat, failed: nat) -> Seq<char> {
    let m1 = "Closed "@ + text::decimal(closed) + " context(s)"@;
    let m2 = if in_use > 0 {
        m1 + "; "@ + text::decimal(in_use) + " kept (in use)"@
    } else {
        m1
    };
    if failed > 0 {
        m2 + "; "@ + text::decimal(failed) + " kept (failed to dispose — retry)"@
    } else {
        m2
    }
}

/// What a sweep prints.
pub fn swept_output(t: &Tally) -> (r: CommandOutput)
    ensures
        r@ == OutputView::Message(sweep_message(t.closed as nat, t.in_use as nat, t.failed as nat)),
{
    let mut msg = "Closed ".to_owned().concat(dec(t.closed).as_str()).concat(" context(s)");
    if t.in_use > 0 {
        msg = msg.concat("; ").concat(dec(t.in_use).as_str()).concat(" kept (in use)");
    }
    if t.failed > 0 {
        msg = msg.concat("; ").concat(dec(t.failed).as_str()).concat(
            " kept (failed to dispose — retry)",
        );
    }
    CommandOutput::Message(msg)
}

/// What a command to close asks for: every context, or the one of a name.
pub enum Closing {
    All,
    One(String),
}

/// Decides what a command to close asks for. `permitted` is what the rules say of the operation
/// `context_close`: no context is closed where they deny it.
pub fn close_contexts(permitted: Result<(), WebPilotError>, name: Option<String>, all: bool) -> (r:
    Result<Closing, WebPilotError>)
    requires
        all || name is Some,
    ensures
        match permitted {
            Err(e) => r == Err::<Closing, WebPilotError>(e),
            Ok(_) => r == Ok::<Closing, WebPilotError>(
                if all {
                    Closing::All
                } else {
                    Closing::One(name->0)
                },
            ),
        },
{
    if let Err(e) = permitted {
        return Err(e);
    }
    if all {
        return Ok(Closing::All);
    }
    match name {
        Some(n) => Ok(Closing::One(n)),
        None => Ok(Closing::All),
    }
}

/// The record of a context, as it was found.
pub enum Record {
    Missing,
    Unreadable,
    Found { browser_context_id: String },
}

/// What closing the context of a name comes to: the browser context to dispose of, none where the
/// record cannot be read, or why it cannot be closed.
pub open spec fn close_outcome(
    name: Seq<char>,
    record: Record,
    own: Option<Seq<char>>,
    free: bool,
) -> Result<Option<Seq<char>>, ErrorView> {
    match record {
        Record::Missing => Err(ErrorView::ContextNotFound(name)),
        Record::Unreadable => Ok(None),
        Record::Found { browser_context_id } => if may_close(own, browser_context_id@, free) {
            Ok(Some(browser_context_id@))
        } else {
            Err(ErrorView::ContextInUse(name))
        },
    }
}

/// Decides on closing the context of a name. `free` tells whether no live process holds it.
pub fn close_context(name: &str, record: Record, own: &Option<String>, free: bool) -> (r: Result<
    Option<String>,
    WebPilotError,
>)
    ensures
        match close_outcome(name@, record, model::maybe(*own), free) {
            Ok(id) => r is Ok && model::maybe(r->Ok_0) == id,
            Err(e) => r is Err && r->Err_0@ == e,
        },
{
    match record {
        Record::Missing => Err(WebPilotError::ContextNotFound { name: name.to_owned() }),
        Record::Unreadable => Ok(None),
        Record::Found { browser_context_id } => {
            if is_own(own, browser_context_id.as_str()) || free {
                Ok(Some(browser_context_id))
            } else {
                Err(WebPilotError::ContextInUse { name: name.to_owned() })
            }
        },
    }
}

/// What closing the context of a name prints.
pub fn closed_output(name: &str) -> (r: CommandOutput)
    ensures
        r@ == OutputView::Message("Closed context '"@ + text::one_line(name@) + "'"@),
{
    CommandOutput::Message(
        "Closed context '".to_owned().concat(line_safe(name).as_str()).concat("'"),
    )
}

/// Whether a browser context is there to be disposed of.
pub fn dispose_if_live(live: &Vec<String>, browser_context_id: &str) -> (r: bool)
    ensures
        r == text::texts(live@).contains(browser_context_id@),
{
    proof {
        text::lemma_texts_index(live@);
    }
    for i in 0..live.len()
        invariant
            text::texts(live@).len() == live@.len(),
            forall|j: int| 0 <= j < i ==> text::texts(live@)[j] != browser_context_id@,
    {
        proof {
            text::lemma_texts_index(live@);
        }
        if same(live[i].as_str(), browser_context_id) {
            assert(text::texts(live@)[i as int] == browser_context_id@);
            return true;
        }
    }
    false
}

/// A context that another live process holds is never closed, by name or in a sweep.
pub proof fn law_no_eviction(
    name: Seq<char>,
    id: String,
    own: Option<Seq<char>>,
    disposed: bool,
)
    requires
        own != Some(id@),
    ensures
        close_outcome(name, Record::Found { browser_context_id: id }, own, false) == Err::<
            Option<Seq<char>>,
            ErrorView,
        >(ErrorView::ContextInUse(name)),
        sweep_one(own, id@, false, disposed) == Swept::InUse,
{
}

/// One's own context can always be closed.
pub proof fn law_own_context_closes(name: Seq<char>, id: String, free: bool)
    ensures
        close_outcome(name, Record::Found { browser_context_id: id }, Some(id@), free) == Ok::<
            Option<Seq<char>>,
            ErrorView,
        >(Some(id@)),
        sweep_one(Some(id@), id@, free, true) == Swept::Closed,
{
}

/// A sweep accounts for every context: each is closed, in use, or failed.
pub proof fn law_sweep_accounts_for_all(swept: Seq<Swept>)
    ensures
        times(swept, Swept::Closed) + times(swept, Swept::InUse) + times(swept, Swept::Failed)
            == swept.len(),
    decreases swept.len(),
{
    if swept.len() > 0 {
        law_sweep_accounts_for_all(swept.drop_last());
    }
}

/// A listing shows every context in its order: its own description in JSON, and a row with its name,
/// the seconds since it was made and its directory.
pub proof fn law_contexts_are_listed(contexts: Vec<ContextEntry>, now: u64, r: CommandOutput)
    requires
        call_ensures(list_contexts, (&contexts, now), r),
    ensures
        r matches CommandOutput::List { items, human_lines, summary } && {
            &&& items@ matches JsonView::Array(list) && list.len() == contexts@.len() && forall|i: int|
                0 <= i < contexts@.len() ==> #[trigger] list[i] == contexts@[i].wire@
            &&& contexts@.len() > 0 ==> human_lines@.len() == contexts@.len()
            &&& forall|i: int|
                #![trigger human_lines@[i]]
                0 <= i < contexts@.len() ==> {
                    let c = contexts@[i];
                    let shown = human_lines@[i]@;
                    &&& text::has_prefix(shown, "  "@ + text::one_line(c.name@) + " ("@)
                    &&& text::has_suffix(shown, " — "@ + text::one_line(c.cwd@))
                    &&& text::holds(
                        shown,
                        " ("@ + text::decimal(
                            (if c.created_at < now {
                                now - c.created_at
                            } else {
                                0
                            }) as nat,
                        ) + "s old)"@,
                    )
                }
            &&& contexts@.len() > 0 ==> text::has_prefix(summary@, text::decimal(contexts@.len()))
            &&& contexts@.len() == 0 ==> summary@.len() == 0 && human_lines@.len() == 1
                && human_lines@[0]@ == "No active contexts"@
        },
{
    if let CommandOutput::List { items, human_lines, summary } = r {
        text::lemma_texts_index(human_lines@);
        text::lemma_front(text::decimal(contexts@.len()), " context(s)"@);
        reveal_strlit("s old) — ");
        reveal_strlit("s old)");
        reveal_strlit(" — ");
        assert("s old) — "@ =~= "s old)"@ + " — "@);
        if contexts@.len() == 0 {
            assert(text::texts(human_lines@)[0] == human_lines@[0]@);
        }
        assert forall|i: int| #![trigger human_lines@[i]] 0 <= i < contexts@.len() implies {
            let c = contexts@[i];
            let shown = human_lines@[i]@;
            &&& text::has_prefix(shown, "  "@ + text::one_line(c.name@) + " ("@)
            &&& text::has_suffix(shown, " — "@ + text::one_line(c.cwd@))
            &&& text::holds(
                shown,
                " ("@ + text::decimal(
                    (if c.created_at < now {
                        now - c.created_at
                    } else {
                        0
                    }) as nat,
                ) + "s old)"@,
            )
        } by {
            let c = contexts@[i];
            let shown = human_lines@[i]@;
            assert(text::texts(human_lines@)[i] == context_row(c@, now));
            let age = text::decimal(age(now, c.created_at));
            let name = text::one_line(c.name@);
            let cwd = text::one_line(c.cwd@);
            let front = "  "@ + name + " ("@;
            assert(shown =~= front + (age + "s old) — "@ + cwd));
            text::lemma_front(front, age + "s old) — "@ + cwd);
            assert(shown =~= ("  "@ + name + " ("@ + age + "s old)"@) + (" — "@ + cwd));
            text::lemma_back("  "@ + name + " ("@ + age + "s old)"@, " — "@ + cwd);
            assert(shown =~= ("  "@ + name) + (" ("@ + age + "s old)"@) + (" — "@ + cwd));
            text::lemma_part("  "@ + name, " ("@ + age + "s old)"@, " — "@ + cwd);
        }
    }
}

/// The context of a name is closed where there is one and it is one's own or no live process holds
/// it; what is disposed of is the browser context on its record.
pub proof fn law_contexts_are_closed(
    name: &str,
    record: Record,
    own: Option<String>,
    free: bool,
    r: Result<Option<String>, WebPilotError>,
)
    requires
        call_ensures(close_context, (name, record, &own, free), r),
    ensures
        record is Missing ==> (r matches Err(WebPilotError::ContextNotFound { name: n }) && n@
            == name@),
        record is Unreadable ==> r == Ok::<Option<String>, WebPilotError>(None),
        record matches Record::Found { browser_context_id } ==> {
            let mine = own is Some && own->0@ == browser_context_id@;
            &&& mine || free ==> (r matches Ok(Some(id)) && id@ == browser_context_id@)
            &&& !mine && !free ==> (r matches Err(WebPilotError::ContextInUse { name: n }) && n@
                == name@)
        },
{
}

/// A sweep closes what is one's own or free, keeps the rest, and tells a failure as one.
pub proof fn law_sweeps(
    own: Option<String>,
    id: &str,
    free: bool,
    disposed: bool,
    takes: bool,
    became: Swept,
)
    requires
        call_ensures(sweeps, (&own, id, free), takes),
        call_ensures(swept, (&own, id, free, disposed), became),
    ensures
        takes <==> free || (own is Some && own->0@ == id@),
        became is InUse <==> !takes,
        became is Closed <==> takes && disposed,
        became is Failed <==> takes && !disposed,
{
}

/// What a command to close asks for is done only where the rules permit it: every context where all
/// are asked for, else the one that is named.
pub proof fn law_closing_is_asked_for(
    permitted: Result<(), WebPilotError>,
    name: Option<String>,
    all: bool,
    r: Result<Closing, WebPilotError>,
)
    requires
        all || name is Some,
        call_ensures(close_contexts, (permitted, name, all), r),
    ensures
        permitted matches Err(e) ==> r matches Err(told) && told == e,
        permitted is Ok && all ==> r matches Ok(Closing::All),
        permitted is Ok && !all ==> (r matches Ok(Closing::One(n)) && n == name->0),
{
}

/// The tally counts each outcome once: one more context adds one to the count of what became of it
/// and to no other.
pub proof fn law_the_tally_counts_each(
    before: Vec<Swept>,
    after: Vec<Swept>,
    became: Swept,
    a: Tally,
    b: Tally,
)
    requires
        after@ == before@.push(became),
        call_ensures(tally, (&before,), a),
        call_ensures(tally, (&after,), b),
    ensures
        b.closed == a.closed + (if became is Closed {
            1int
        } else {
            0
        }),
        b.in_use == a.in_use + (if became is InUse {
            1int
        } else {
            0
        }),
        b.failed == a.failed + (if became is Failed {
            1int
        } else {
            0
        }),
        before@.len() == 0 ==> a.closed == 0 && a.in_use == 0 && a.failed == 0,
{
    assert(after@.drop_last() =~= before@);
    law_sweep_accounts_for_all(before@);
}

/// What a sweep prints tells how many were closed, and how many were kept for being in use or for a
/// failure, where there were any.
pub proof fn law_sweeps_are_told(t: Tally, r: CommandOutput, name: &str, one: CommandOutput)
    requires
        call_ensures(swept_output, (&t,), r),
        call_ensures(closed_output, (name,), one),
    ensures
        r matches CommandOutput::Message(m) && {
            &&& text::has_prefix(m@, "Closed "@ + text::decimal(t.closed as nat) + " context(s)"@)
            &&& t.in_use > 0 ==> text::holds(
                m@,
                "; "@ + text::decimal(t.in_use as nat) + " kept (in use)"@,
            )
            &&& t.failed > 0 ==> text::has_suffix(
                m@,
                "; "@ + text::decimal(t.failed as nat) + " kept (failed to dispose — retry)"@,
            )
            &&& t.in_use == 0 && t.failed == 0 ==> m@ == "Closed "@ + text::decimal(
                t.closed as nat,
            ) + " context(s)"@
        },
        one matches CommandOutput::Message(m) && text::holds(m@, text::one_line(name@)),
{
    let m1 = "Closed "@ + text::decimal(t.closed as nat) + " context(s)"@;
    let used = "; "@ + text::decimal(t.in_use as nat) + " kept (in use)"@;
    let failed = "; "@ + text::decimal(t.failed as nat) + " kept (failed to dispose — retry)"@;
    text::lemma_part("Closed context '"@, text::one_line(name@), "'"@);
    if let CommandOutput::Message(m) = r {
        if t.in_use > 0 && t.failed > 0 {
            lemma_put_after(m1, used, failed);
            lemma_grouped(m1, "; "@, text::decimal(t.in_use as nat), " kept (in use)"@);
            lemma_grouped(
                m1 + used,
                "; "@,
                text::decimal(t.failed as nat),
                " kept (failed to dispose — retry)"@,
            );
            assert(m@ == m1 + used + failed);
        } else if t.in_use > 0 {
            lemma_put_after(m1, used, Seq::empty());
            lemma_grouped(m1, "; "@, text::decimal(t.in_use as nat), " kept (in use)"@);
            assert(m1 + used + Seq::<char>::empty() =~= m1 + used);
            assert(m@ == m1 + used);
        } else if t.failed > 0 {
            lemma_put_after(m1, Seq::empty(), failed);
            lemma_grouped(
                m1,
                "; "@,
                text::decimal(t.failed as nat),
                " kept (failed to dispose — retry)"@,
            );
            assert(m1 + Seq::<char>::empty() =~= m1);
            assert(m@ == m1 + failed);
        } else {
            assert(m1.take(m1.len() as int) =~= m1);
            assert(m@ == m1);
        }
    }
}

proof fn lemma_put_after(a: Seq<char>, b: Seq<char>, c: Seq<char>)
    ensures
        text::has_prefix(a + b + c, a),
        text::holds(a + b + c, b),
        text::has_suffix(a + b + c, c),
{
    assert(a + b + c =~= a + (b + c));
    text::lemma_front(a, b + c);
    text::lemma_part(a, b, c);
    text::lemma_back(a + b, c);
}

proof fn lemma_grouped(a: Seq<char>, b: Seq<char>, c: Seq<char>, d: Seq<char>)
    ensures
        a + b + c + d == a + (b + c + d),
{
    assert(a + b + c + d =~= a + (b + c + d));
}

/// A browser context is there exactly where it is among the live ones.
pub proof fn law_live_contexts_are_found(live: Vec<String>, id: &str, r: bool)
    requires
        call_ensures(dispose_if_live, (&live, id), r),
    ensures
        r <==> exists|i: int| 0 <= i < live@.len() && (#[trigger] live@[i])@ == id@,
{
    text::lemma_texts_index(live@);
    if r {
        let i = choose|i: int|
            0 <= i < text::texts(live@).len() && text::texts(live@)[i] == id@;
        assert(live@[i]@ == id@);
    }
    if exists|i: int| 0 <= i < live@.len() && (#[trigger] live@[i])@ == id@ {
        let i = choose|i: int| 0 <= i < live@.len() && (#[trigger] live@[i])@ == id@;
        assert(text::texts(live@)[i] == id@);
    }
}

} // verus!
