//! What a page wrote to its console.
use crate::headless;
use crate::headless::{array_of, count_of, entries_of, field_is, str_or};
use crate::json::{Json, JsonView};
use crate::model;
use crate::output::{CommandOutput, OutputView};
use crate::text;
use vstd::prelude::*;
use vstd::string::StringExecFns;

verus! {

/// Whether an entry is of the level that was asked for.
pub open spec fn is_level(entry: JsonView, level: Option<Seq<char>>) -> bool {
    level is None || entry.get_str("level"@) == level
}

/// The entries of a level.
pub open spec fn of_level(entries: Seq<JsonView>, level: Option<Seq<char>>) -> Seq<JsonView> {
    model::picked(entries, |e: JsonView| is_level(e, level))
}

/// `[level] message`.
pub open spec fn row(entry: JsonView) -> Seq<char> {
    "["@ + headless::text_or(entry, "level"@, "?"@) + "] "@ + headless::text_or(
        entry,
        "message"@,
        ""@,
    )
}

fn row_of(entry: &Json) -> (r: String)
    ensures
        r@ == row(entry@),
{
    "[".to_owned().concat(str_or(entry, "level", "?").as_str()).concat("] ").concat(
        str_or(entry, "message", "").as_str(),
    )
}

/// What a read prints.
pub open spec fn listing(answer: JsonView, level: Option<Seq<char>>) -> OutputView {
    let entries = of_level(headless::list_of(answer), level);
    OutputView::List(
        JsonView::Array(entries),
        Seq::new(entries.len(), |i: int| row(entries[i])),
        headless::counted(entries.len(), "entries"@),
    )
}

/// What a read prints: the entries of the level that was asked for, or all.
pub fn read(answer: &Json, level: Option<&str>) -> (r: CommandOutput)
    ensures
        r@ == listing(answer@, model::maybe(level)),
{
    let found = entries_of(answer);
    let ghost all = model::each(found@);
    let ghost wanted = model::maybe(level);
    let ghost pick = |e: JsonView| is_level(e, wanted);
    let mut entries: Vec<Json> = Vec::new();
    let mut rows: Vec<String> = Vec::new();
    proof {
        assert(all.take(0) =~= Seq::empty());
        assert(model::each(entries@) =~= Seq::empty());
    }
    for i in 0..found.len()
        invariant
            all == model::each(found@),
            wanted == model::maybe(level),
            pick == (|e: JsonView| is_level(e, wanted)),
            model::each(entries@) == model::picked(all.take(i as int), pick),
            rows@.len() == entries@.len(),
            forall|j: int| 0 <= j < rows@.len() ==> (#[trigger] rows@[j])@ == row(entries@[j]@),
    {
        proof {
            assert(all.take(i + 1).drop_last() =~= all.take(i as int));
            assert(all.take(i + 1).last() == found@[i as int]@);
        }
        let keep = match level {
            Some(l) => field_is(&found[i], "level", l),
            None => true,
        };
        if keep {
            let entry = found[i].copy();
            proof {
                model::lemma_each_push(entries@, entry);
            }
            rows.push(row_of(&entry));
            entries.push(entry);
        }
    }
    assert(all.take(found@.len() as int) =~= all);
    let summary = count_of(entries.len(), "entries");
    proof {
        text::lemma_texts_index(rows@);
        assert(text::texts(rows@) =~= Seq::new(
            model::each(entries@).len(),
            |i: int| row(model::each(entries@)[i]),
        ));
    }
    CommandOutput::List { items: array_of(entries), human_lines: rows, summary }
}

/// A read shows the entries of the level that is asked for, or all, in their order: each as it is in
/// JSON, and on a line with its level and message.
pub proof fn law_entries_are_shown(
    answer: Json,
    found: Seq<JsonView>,
    level: Option<&str>,
    r: CommandOutput,
) -> (at: Seq<int>)
    requires
        answer@ == JsonView::Array(found) || (!(answer@ is Array) && found.len() == 0),
        call_ensures(read, (&answer, level), r),
    ensures
        r matches CommandOutput::List { items, human_lines, summary } && {
            &&& items@ matches JsonView::Array(list) && list.len() == at.len() && forall|i: int|
                0 <= i < at.len() ==> #[trigger] list[i] == found[at[i]]
            &&& forall|i: int| 0 <= i < at.len() ==> 0 <= #[trigger] at[i] < found.len()
            &&& forall|i: int, j: int| 0 <= i < j < at.len() ==> at[i] < at[j]
            &&& forall|k: int|
                0 <= k < found.len() ==> (at.contains(k) <==> level is None || (
                #[trigger] found[k]).get("level"@) == Some(JsonView::Str(level->0@)))
            &&& human_lines@.len() == at.len()
            &&& forall|i: int|
                #![trigger human_lines@[i]]
                0 <= i < at.len() ==> {
                    let entry = found[at[i]];
                    (entry.get("level"@) matches Some(JsonView::Str(l)) ==> (entry.get(
                        "message"@,
                    ) matches Some(JsonView::Str(m)) ==> human_lines@[i]@ == "["@ + l + "] "@ + m))
                }
            &&& text::has_prefix(summary@, "("@ + text::decimal(at.len()))
        },
{
    assert(found =~= headless::list_of(answer@));
    let wanted = model::maybe(level);
    let pick = |e: JsonView| is_level(e, wanted);
    let at = model::law_picked_in_order(found, pick);
    if let CommandOutput::List { items, human_lines, summary } = r {
        text::lemma_texts_index(human_lines@);
        assert forall|i: int| #![trigger human_lines@[i]] 0 <= i < at.len() implies human_lines@[i]@
            == row(found[at[i]]) by {
            assert(text::texts(human_lines@)[i] == human_lines@[i]@);
            assert(of_level(found, wanted)[i] == found[at[i]]);
        }
        assert forall|k: int| 0 <= k < found.len() implies (at.contains(k) <==> level is None || (
        #[trigger] found[k]).get("level"@) == Some(JsonView::Str(level->0@))) by {
            assert(pick(found[k]) <==> at.contains(k));
        }
        let n = text::decimal(at.len());
        assert(summary@ =~= ("("@ + n) + (" "@ + "entries"@ + ")"@));
        text::lemma_front("("@ + n, " "@ + "entries"@ + ")"@);
    }
    at
}

} // verus!
