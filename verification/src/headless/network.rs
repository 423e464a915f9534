//! The requests that a page made.
use crate::headless;
use crate::headless::{count_of, entries_of, execute_action, str_or};
use crate::json::{Json, JsonView};
use crate::model;
use crate::output::{CommandOutput, OutputView};
use crate::text;
use crate::text::{dec, shorten};
use vstd::prelude::*;
use vstd::string::StringExecFns;

verus! {

/// The message that has the page load the code that answers messages, and do nothing else.
pub fn wake_message() -> (r: Json)
    ensures
        r@ == headless::action_message(
            JsonView::object().with("action"@, JsonView::Str("noop"@)),
        ),
{
    execute_action(Json::object().with("action", Json::string("noop")))
}

/// The script that reads the requests since a time, or all.
pub fn read_script(since: Option<u64>) -> (r: String)
    ensures
        r@ == "(window.__webpilot_network || []).filter(e => e.timestamp >= "@ + text::decimal(
            match since {
                Some(t) => t as nat,
                None => 0,
            },
        ) + ")"@,
{
    let from: u64 = match since {
        Some(t) => t,
        None => 0,
    };
    "(window.__webpilot_network || []).filter(e => e.timestamp >= ".to_owned().concat(
        dec(from).as_str(),
    ).concat(")")
}

/// The status of a request, 0 where it has none.
pub open spec fn status_of(entry: JsonView) -> u64 {
    match entry.get("status"@) {
        Some(s) => match s.as_u64() {
            Some(n) => n,
            None => 0,
        },
        None => 0,
    }
}

/// `type method url → status`, with no more than the first bytes of the address.
pub open spec fn row(entry: JsonView) -> Seq<char> {
    headless::text_or(entry, "type"@, "?"@) + " "@ + headless::text_or(entry, "method"@, "?"@)
        + " "@ + text::shortened(headless::text_or(entry, "url"@, "?"@), 60) + " → "@
        + text::decimal(status_of(entry) as nat)
}

fn row_of(entry: &Json) -> (r: String)
    ensures
        r@ == row(entry@),
{
    let status: u64 = match entry.get("status") {
        Some(s) => match s.as_u64() {
            Some(n) => n,
            None => 0,
        },
        None => 0,
    };
    str_or(entry, "type", "?").concat(" ").concat(str_or(entry, "method", "?").as_str()).concat(
        " ",
    ).concat(shorten(str_or(entry, "url", "?").as_str(), 60).as_str()).concat(" → ").concat(
        dec(status).as_str(),
    )
}

/// What a read prints.
pub fn read(answer: Json) -> (r: CommandOutput)
    ensures
        r@ == ({
            let entries = headless::list_of(answer@);
            OutputView::List(
                answer@,
                Seq::new(entries.len(), |i: int| row(entries[i])),
                headless::counted(entries.len(), "requests"@),
            )
        }),
{
    let entries = entries_of(&answer);
    let ghost all = headless::list_of(answer@);
    let mut rows: Vec<String> = Vec::new();
    for i in 0..entries.len()
        invariant
            all == model::each(entries@),
            rows@.len() == i,
            forall|j: int| 0 <= j < i ==> (#[trigger] rows@[j])@ == row(all[j]),
    {
        rows.push(row_of(&entries[i]));
    }
    let summary = count_of(entries.len(), "requests");
    proof {
        text::lemma_texts_index(rows@);
        assert(text::texts(rows@) =~= Seq::new(all.len(), |i: int| row(all[i])));
    }
    CommandOutput::List { items: answer, human_lines: rows, summary }
}

/// A read shows every request that the page tells of, in its order: as they are in JSON, and each on a
/// line with its kind, method, address and status.
pub proof fn law_requests_are_shown(answer: Json, found: Seq<JsonView>, r: CommandOutput)
    requires
        answer@ == JsonView::Array(found) || (!(answer@ is Array) && found.len() == 0),
        call_ensures(read, (answer,), r),
    ensures
        r matches CommandOutput::List { items, human_lines, summary } && {
            &&& items@ == answer@
            &&& human_lines@.len() == found.len()
            &&& forall|i: int|
                #![trigger human_lines@[i]]
                0 <= i < found.len() ==> {
                    let shown = human_lines@[i]@;
                    let e = found[i];
                    &&& e.get("type"@) matches Some(JsonView::Str(t)) ==> (e.get(
                        "method"@,
                    ) matches Some(JsonView::Str(m)) ==> (e.get("url"@) matches Some(
                        JsonView::Str(u),
                    ) ==> text::has_prefix(shown, t + " "@ + m + " "@ + text::shortened(u, 60))))
                    &&& e.get("status"@) matches Some(JsonView::Num(crate::json::NumberView::Unsigned(n)))
                        ==> text::has_suffix(shown, " → "@ + text::decimal(n as nat))
                }
            &&& text::has_prefix(summary@, "("@ + text::decimal(found.len()))
        },
{
    assert(found =~= headless::list_of(answer@));
    if let CommandOutput::List { items, human_lines, summary } = r {
        text::lemma_texts_index(human_lines@);
        assert forall|i: int| #![trigger human_lines@[i]] 0 <= i < found.len() implies {
            let shown = human_lines@[i]@;
            let e = found[i];
            &&& e.get("type"@) matches Some(JsonView::Str(t)) ==> (e.get("method"@) matches Some(
                JsonView::Str(m),
            ) ==> (e.get("url"@) matches Some(JsonView::Str(u)) ==> text::has_prefix(
                shown,
                t + " "@ + m + " "@ + text::shortened(u, 60),
            )))
            &&& e.get("status"@) matches Some(JsonView::Num(crate::json::NumberView::Unsigned(n)))
                ==> text::has_suffix(shown, " → "@ + text::decimal(n as nat))
        } by {
            let e = found[i];
            assert(text::texts(human_lines@)[i] == row(e));
            let front = headless::text_or(e, "type"@, "?"@) + " "@ + headless::text_or(
                e,
                "method"@,
                "?"@,
            ) + " "@ + text::shortened(headless::text_or(e, "url"@, "?"@), 60);
            let end = " → "@ + text::decimal(status_of(e) as nat);
            assert(row(e) =~= front + end);
            text::lemma_front(front, end);
            text::lemma_back(front, end);
        }
        let n = text::decimal(found.len());
        assert(summary@ =~= ("("@ + n) + (" "@ + "requests"@ + ")"@));
        text::lemma_front("("@ + n, " "@ + "requests"@ + ")"@);
    }
}

/// The script reads the requests from the time that is given, or from the beginning; the page is woken
/// with an action that does nothing.
pub proof fn law_requests_are_asked_for(since: Option<u64>, script: String, wake: Json)
    requires
        call_ensures(read_script, (since,), script),
        call_ensures(wake_message, (), wake),
    ensures
        text::has_suffix(
            script@,
            "e.timestamp >= "@ + text::decimal(
                match since {
                    Some(t) => t as nat,
                    None => 0,
                },
            ) + ")"@,
        ),
        wake@.get("type"@) == Some(JsonView::Str("executeAction"@)),
        wake@.get("action"@) matches Some(a) && a.get("action"@) == Some(JsonView::Str("noop"@)),
{
    reveal_strlit("type");
    reveal_strlit("action");
    assert("type"@.len() == 4);
    assert("action"@.len() == 6);
    reveal_strlit("(window.__webpilot_network || []).filter(e => e.timestamp >= ");
    reveal_strlit("(window.__webpilot_network || []).filter(e => ");
    reveal_strlit("e.timestamp >= ");
    let (a, b) = ("(window.__webpilot_network || []).filter(e => "@, "e.timestamp >= "@);
    assert("(window.__webpilot_network || []).filter(e => e.timestamp >= "@ =~= a + b);
    let n = text::decimal(
        match since {
            Some(t) => t as nat,
            None => 0,
        },
    );
    assert(script@ =~= a + (b + n + ")"@));
    text::lemma_back(a, b + n + ")"@);
}

} // verus!
