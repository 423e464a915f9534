//! The browser's tabs.
use crate::headless;
use crate::headless::{array_of, field_is, str_or, Failure, FailureView};
use crate::json::{Json, JsonView};
use crate::model;
use crate::output::{CommandOutput, OutputView};
use crate::text;
use crate::text::{contains, strip_char};
use vstd::prelude::*;
use vstd::string::StringExecFns;

verus! {

/// The pages among the browser's targets.
pub open spec fn pages(targets: Seq<JsonView>) -> Seq<JsonView> {
    model::picked(targets, |t: JsonView| headless::is_page(t))
}

/// `  [id] title — url`.
pub open spec fn row(page: JsonView) -> Seq<char> {
    "  ["@ + headless::text_or(page, "targetId"@, ""@) + "] "@ + headless::text_or(
        page,
        "title"@,
        ""@,
    ) + " — "@ + headless::text_or(page, "url"@, ""@)
}

fn row_of(page: &Json) -> (r: String)
    ensures
        r@ == row(page@),
{
    "  [".to_owned().concat(str_or(page, "targetId", "").as_str()).concat("] ").concat(
        str_or(page, "title", "").as_str(),
    ).concat(" — ").concat(str_or(page, "url", "").as_str())
}

/// What a listing prints.
pub fn list(targets: &Vec<Json>) -> (r: CommandOutput)
    ensures
        r@ == ({
            let found = pages(model::each(targets@));
            OutputView::List(
                JsonView::Array(found),
                Seq::new(found.len(), |i: int| row(found[i])),
                Seq::empty(),
            )
        }),
{
    let ghost all = model::each(targets@);
    let ghost pick = |t: JsonView| headless::is_page(t);
    let mut items: Vec<Json> = Vec::new();
    let mut rows: Vec<String> = Vec::new();
    proof {
        assert(all.take(0) =~= Seq::empty());
        assert(model::each(items@) =~= Seq::empty());
    }
    for i in 0..targets.len()
        invariant
            all == model::each(targets@),
            pick == (|t: JsonView| headless::is_page(t)),
            model::each(items@) == model::picked(all.take(i as int), pick),
            rows@.len() == items@.len(),
            forall|j: int| 0 <= j < rows@.len() ==> (#[trigger] rows@[j])@ == row(items@[j]@),
    {
        proof {
            assert(all.take(i + 1).drop_last() =~= all.take(i as int));
            assert(all.take(i + 1).last() == targets@[i as int]@);
        }
        if field_is(&targets[i], "type", "page") {
            let page = targets[i].copy();
            proof {
                model::lemma_each_push(items@, page);
            }
            rows.push(row_of(&page));
            items.push(page);
        }
    }
    assert(all.take(targets@.len() as int) =~= all);
    let summary = String::new();
    proof {
        text::lemma_texts_index(rows@);
        let found = pages(all);
        assert(text::texts(rows@) =~= Seq::new(found.len(), |i: int| row(found[i])));
        assert(summary@ =~= Seq::empty());
    }
    CommandOutput::List { items: array_of(items), human_lines: rows, summary }
}

/// What opening a tab prints.
pub fn opened(answer: &Json) -> (r: CommandOutput)
    ensures
        r@ == ({
            let id = headless::text_or(answer@, "targetId"@, ""@);
            OutputView::Data(
                JsonView::object().with("success"@, JsonView::Bool(true)).with(
                    "targetId"@,
                    JsonView::Str(id),
                ),
                "New tab: "@ + id,
            )
        }),
{
    let id = str_or(answer, "targetId", "");
    CommandOutput::Data {
        json: Json::object().with("success", Json::Bool(true)).with(
            "targetId",
            Json::string(id.as_str()),
        ),
        human: "New tab: ".to_owned().concat(id.as_str()),
    }
}

/// Whether the tab at a position is the first whose address holds a text.
pub open spec fn is_first_at(targets: Seq<JsonView>, part: Seq<char>, at: int) -> bool {
    headless::is_first(
        targets,
        |t: JsonView| text::holds(headless::text_or(t, "url"@, ""@), part),
        at,
    )
}

/// The tab whose address holds a pattern, of which the stars do not count.
pub fn find(targets: &Vec<Json>, pattern: &str) -> (r: Result<String, Failure>)
    ensures
        ({
            let all = model::each(targets@);
            let part = text::without_char(pattern@, '*');
            match headless::outcome(r) {
                Ok(id) => exists|i: int| #[trigger]
                    is_first_at(all, part, i) && id == headless::text_or(
                        all[i],
                        "targetId"@,
                        ""@,
                    ),
                Err(e) => (forall|i: int|
                    0 <= i < all.len() ==> !text::holds(
                        headless::text_or(#[trigger] all[i], "url"@, ""@),
                        part,
                    )) && e == FailureView::Plain("No tab matching '"@ + pattern@ + "'"@),
            }
        }),
{
    let part = strip_char(pattern, '*');
    let ghost all = model::each(targets@);
    for i in 0..targets.len()
        invariant
            all == model::each(targets@),
            part@ == text::without_char(pattern@, '*'),
            forall|k: int|
                0 <= k < i ==> !text::holds(
                    headless::text_or(#[trigger] all[k], "url"@, ""@),
                    part@,
                ),
    {
        assert(all[i as int] == targets@[i as int]@);
        if contains(str_or(&targets[i], "url", "").as_str(), part.as_str()) {
            assert(is_first_at(all, part@, i as int));
            return Ok(str_or(&targets[i], "targetId", ""));
        }
    }
    Err(Failure::Plain("No tab matching '".to_owned().concat(pattern).concat("'")))
}

/// What going to a tab prints.
pub fn switched(tab_id: &str) -> (r: CommandOutput)
    ensures
        r@ == OutputView::Data(
            JsonView::object().with("success"@, JsonView::Bool(true)),
            "Switched to "@ + tab_id@,
        ),
{
    CommandOutput::Data {
        json: Json::object().with("success", Json::Bool(true)),
        human: "Switched to ".to_owned().concat(tab_id),
    }
}

/// What closing a tab prints.
pub fn closed(tab_id: &str) -> (r: CommandOutput)
    ensures
        r@ == OutputView::Data(
            JsonView::object().with("success"@, JsonView::Bool(true)),
            "Closed "@ + tab_id@,
        ),
{
    CommandOutput::Data {
        json: Json::object().with("success", Json::Bool(true)),
        human: "Closed ".to_owned().concat(tab_id),
    }
}

/// What going to a tab that was looked for prints: which one it was, too.
pub fn found(tab_id: &str) -> (r: CommandOutput)
    ensures
        r@ == OutputView::Data(
            JsonView::object().with("success"@, JsonView::Bool(true)).with(
                "targetId"@,
                JsonView::Str(tab_id@),
            ),
            "Switched to "@ + tab_id@,
        ),
{
    CommandOutput::Data {
        json: Json::object().with("success", Json::Bool(true)).with(
            "targetId",
            Json::string(tab_id),
        ),
        human: "Switched to ".to_owned().concat(tab_id),
    }
}

/// A listing shows every page among the targets and nothing else, in their order: as it is in JSON, and
/// on a line with its id, title and address.
pub proof fn law_pages_are_listed(targets: Vec<Json>, r: CommandOutput) -> (at: Seq<int>)
    requires
        call_ensures(list, (&targets,), r),
    ensures
        r matches CommandOutput::List { items, human_lines, summary } && {
            &&& items@ matches JsonView::Array(shown) && shown.len() == at.len() && forall|i: int|
                0 <= i < at.len() ==> #[trigger] shown[i] == targets@[at[i]]@
            &&& forall|i: int| 0 <= i < at.len() ==> 0 <= #[trigger] at[i] < targets@.len()
            &&& forall|i: int, j: int| 0 <= i < j < at.len() ==> at[i] < at[j]
            &&& forall|k: int|
                0 <= k < targets@.len() ==> (at.contains(k) <==> (#[trigger] targets@[k])@.get(
                    "type"@,
                ) == Some(JsonView::Str("page"@)))
            &&& human_lines@.len() == at.len()
            &&& forall|i: int|
                #![trigger human_lines@[i]]
                0 <= i < at.len() ==> {
                    let page = targets@[at[i]]@;
                    (page.get("targetId"@) matches Some(JsonView::Str(id)) ==> (page.get(
                        "title"@,
                    ) matches Some(JsonView::Str(t)) ==> (page.get("url"@) matches Some(
                        JsonView::Str(u),
                    ) ==> human_lines@[i]@ == "  ["@ + id + "] "@ + t + " — "@ + u)))
                }
        },
{
    let all = model::each(targets@);
    let pick = |t: JsonView| headless::is_page(t);
    let at = model::law_picked_in_order(all, pick);
    if let CommandOutput::List { items, human_lines, summary } = r {
        text::lemma_texts_index(human_lines@);
        assert forall|i: int| #![trigger human_lines@[i]] 0 <= i < at.len() implies human_lines@[i]@
            == row(targets@[at[i]]@) by {
            assert(text::texts(human_lines@)[i] == human_lines@[i]@);
            assert(pages(all)[i] == all[at[i]]);
        }
        assert forall|k: int| 0 <= k < targets@.len() implies (at.contains(k) <==> (
        #[trigger] targets@[k])@.get("type"@) == Some(JsonView::Str("page"@))) by {
            assert(all[k] == targets@[k]@);
            assert(pick(all[k]) <==> at.contains(k));
        }
    }
    at
}

/// The tab that is looked for is the first whose address holds the pattern, of which the stars do not
/// count; where none does it fails, and tells the pattern.
pub proof fn law_a_tab_is_found_by_address(targets: Vec<Json>, pattern: &str, r: Result<String, Failure>)
    requires
        call_ensures(find, (&targets, pattern), r),
    ensures
        ({
            let address = |t: Json|
                match t@.get("url"@) {
                    Some(JsonView::Str(u)) => u,
                    _ => Seq::empty(),
                };
            let part = text::without_char(pattern@, '*');
            &&& r is Ok <==> exists|i: int|
                0 <= i < targets@.len() && text::holds(address(#[trigger] targets@[i]), part)
            &&& r matches Ok(id) ==> exists|i: int|
                {
                    &&& 0 <= i < targets@.len()
                    &&& text::holds(address(#[trigger] targets@[i]), part)
                    &&& forall|k: int|
                        0 <= k < i ==> !text::holds(address(#[trigger] targets@[k]), part)
                    &&& targets@[i]@.get("targetId"@) matches Some(JsonView::Str(t)) ==> id@ == t
                }
            &&& r matches Err(e) ==> (e matches Failure::Plain(m) && text::holds(m@, pattern@))
        }),
{
    reveal_strlit("");
    assert(""@ =~= Seq::<char>::empty());
    let all = model::each(targets@);
    let part = text::without_char(pattern@, '*');
    let pick = |t: JsonView| text::holds(headless::text_or(t, "url"@, ""@), part);
    text::lemma_part("No tab matching '"@, pattern@, "'"@);
    if let Ok(id) = r {
        let i = choose|i: int| #[trigger]
            is_first_at(all, part, i) && id@ == headless::text_or(all[i], "targetId"@, ""@);
        assert(pick(all[i]));
        assert(targets@[i]@ == all[i]);
        assert forall|k: int| 0 <= k < i implies !text::holds(
            match (#[trigger] targets@[k])@.get("url"@) {
                Some(JsonView::Str(u)) => u,
                _ => Seq::empty(),
            },
            part,
        ) by {
            assert(!pick(all[k]));
        }
    } else {
        assert forall|i: int| 0 <= i < targets@.len() implies !text::holds(
            match (#[trigger] targets@[i])@.get("url"@) {
                Some(JsonView::Str(u)) => u,
                _ => Seq::empty(),
            },
            part,
        ) by {
            assert(!text::holds(headless::text_or(all[i], "url"@, ""@), part));
        }
    }
}

/// What is done with a tab tells the tab.
pub proof fn law_tabs_are_named(
    answer: Json,
    id: Seq<char>,
    new: CommandOutput,
    tab: &str,
    to: CommandOutput,
    gone: CommandOutput,
    looked_for: CommandOutput,
)
    requires
        answer@.get("targetId"@) == Some(JsonView::Str(id)),
        call_ensures(opened, (&answer,), new),
        call_ensures(switched, (tab,), to),
        call_ensures(closed, (tab,), gone),
        call_ensures(found, (tab,), looked_for),
    ensures
        new matches CommandOutput::Data { json, human } && human@ == "New tab: "@ + id && json@.get(
            "targetId"@,
        ) == Some(JsonView::Str(id)) && json@.get("success"@) == Some(JsonView::Bool(true)),
        to matches CommandOutput::Data { json, human } && human@ == "Switched to "@ + tab@
            && json@.get("success"@) == Some(JsonView::Bool(true)),
        gone matches CommandOutput::Data { json, human } && human@ == "Closed "@ + tab@ && json@.get(
            "success"@,
        ) == Some(JsonView::Bool(true)),
        looked_for matches CommandOutput::Data { json, human } && human@ == "Switched to "@ + tab@
            && json@.get("targetId"@) == Some(JsonView::Str(tab@)) && json@.get("success"@) == Some(
            JsonView::Bool(true),
        ),
{
    reveal_strlit("success");
    reveal_strlit("targetId");
    assert("success"@.len() == 7);
    assert("targetId"@.len() == 8);
}

} // verus!
