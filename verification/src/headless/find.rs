//! The elements of a page that meet every one of some criteria.
use crate::commands::find;
use crate::commands::find::{ElementFilter, FilterView, InteractiveElement, ElementView};
use crate::headless;
use crate::headless::{array_of, count_of, execute_action, extract_dom, Failure, FailureView};
use crate::json::{Json, JsonView};
use crate::model;
use crate::output::{CommandOutput, OutputView};
use crate::text;
use crate::text::dec;
use vstd::prelude::*;
use vstd::string::StringExecFns;

verus! {

/// Whether a filter asks for anything.
pub open spec fn asks_nothing(f: FilterView) -> bool {
    f.role is None && f.text is None && f.label is None && f.placeholder is None && f.tag is None
}

/// The message that asks for the page's elements.
pub fn elements_message() -> (r: Json)
    ensures
        r@ == headless::extract_message(JsonView::object()),
{
    extract_dom(Json::object())
}

/// `[index] tag "text"`.
pub open spec fn row(el: ElementView) -> Seq<char> {
    "["@ + text::decimal(el.index as nat) + "] "@ + el.tag + " \""@ + el.text + "\""@
}

fn row_of(el: &InteractiveElement) -> (r: String)
    ensures
        r@ == row(el@),
{
    "[".to_owned().concat(dec(el.index as u64).as_str()).concat("] ").concat(
        el.tag.as_str(),
    ).concat(" \"").concat(el.text.as_str()).concat("\"")
}

/// The action on an element: a click, or a text typed in place of what stands there.
pub open spec fn action(index: u32, click: bool, fill: Option<Seq<char>>) -> Option<JsonView> {
    if click {
        Some(
            headless::action_message(
                JsonView::object().with("action"@, JsonView::Str("Click"@)).with(
                    "index"@,
                    JsonView::number(index as u64),
                ),
            ),
        )
    } else {
        match fill {
            Some(t) => Some(
                headless::action_message(
                    JsonView::object().with("action"@, JsonView::Str("Type"@)).with(
                        "index"@,
                        JsonView::number(index as u64),
                    ).with("text"@, JsonView::Str(t)).with("clear"@, JsonView::Bool(true)),
                ),
            ),
            None => None,
        }
    }
}

fn action_of(index: u32, click: bool, fill: Option<&str>) -> (r: Option<Json>)
    ensures
        model::maybe(r) == action(index, click, model::maybe(fill)),
{
    if click {
        return Some(
            execute_action(
                Json::object().with("action", Json::string("Click")).with(
                    "index",
                    Json::number(index as u64),
                ),
            ),
        );
    }
    match fill {
        Some(t) => Some(
            execute_action(
                Json::object().with("action", Json::string("Type")).with(
                    "index",
                    Json::number(index as u64),
                ).with("text", Json::string(t)).with("clear", Json::Bool(true)),
            ),
        ),
        None => None,
    }
}

/// What was found: what is printed, and what is done with the first of it.
pub struct Found {
    pub output: CommandOutput,
    pub action: Option<Json>,
}

impl View for Found {
    type V = (OutputView, Option<JsonView>);

    open spec fn view(&self) -> (OutputView, Option<JsonView>) {
        (self.output@, model::maybe(self.action))
    }
}

/// What looking for elements comes to.
pub open spec fn found(
    elements: Seq<ElementView>,
    filter: FilterView,
    click: bool,
    fill: Option<Seq<char>>,
) -> Result<(OutputView, Option<JsonView>), FailureView> {
    let all = find::matching(elements, filter);
    if asks_nothing(filter) {
        Err(
            FailureView::Plain(
                "At least one filter required: --role, --text, --label, --placeholder, or --tag"@,
            ),
        )
    } else if all.len() == 0 {
        Err(FailureView::Plain("No matching elements found"@))
    } else {
        Ok(
            (
                OutputView::List(
                    JsonView::object().with(
                        "matches"@,
                        JsonView::Array(Seq::new(all.len(), |i: int| all[i].wire)),
                    ).with("count"@, JsonView::number(all.len() as u64)),
                    Seq::new(all.len(), |i: int| row(all[i])),
                    headless::counted(all.len(), "matches"@),
                ),
                action(all[0].index, click, fill),
            ),
        )
    }
}

/// Looks for elements: those that meet every criterion, in the order of the page.
pub fn find(
    elements: &Vec<InteractiveElement>,
    filter: &ElementFilter,
    click: bool,
    fill: Option<&str>,
) -> (r: Result<Found, Failure>)
    ensures
        headless::outcome(r) == found(
            model::each(elements@),
            filter@,
            click,
            model::maybe(fill),
        ),
{
    if filter.role.is_none() && filter.text.is_none() && filter.label.is_none()
        && filter.placeholder.is_none() && filter.tag.is_none() {
        return Err(
            Failure::Plain(
                "At least one filter required: --role, --text, --label, --placeholder, or --tag".to_owned(),
            ),
        );
    }
    let ghost all = model::each(elements@);
    let ghost hits = find::matching(all, filter@);
    let ghost pick = |el: ElementView| find::element_matches(el, filter@);
    let mut first: Option<u32> = None;
    let mut wires: Vec<Json> = Vec::new();
    let mut rows: Vec<String> = Vec::new();
    proof {
        assert(all.take(0) =~= Seq::empty());
        assert(model::picked(all.take(0), pick) =~= Seq::empty());
    }
    for i in 0..elements.len()
        invariant
            all == model::each(elements@),
            pick == (|el: ElementView| find::element_matches(el, filter@)),
            ({
                let sofar = model::picked(all.take(i as int), pick);
                &&& wires@.len() == sofar.len()
                &&& rows@.len() == sofar.len()
                &&& forall|j: int|
                    0 <= j < sofar.len() ==> (#[trigger] wires@[j])@ == sofar[j].wire
                &&& forall|j: int| 0 <= j < sofar.len() ==> (#[trigger] rows@[j])@ == row(sofar[j])
                &&& first is Some <==> sofar.len() > 0
                &&& first is Some ==> first->0 == sofar[0].index
            }),
    {
        proof {
            assert(all.take(i + 1).drop_last() =~= all.take(i as int));
            assert(all.take(i + 1).last() == elements@[i as int]@);
        }
        if elements[i].matches(filter) {
            if first.is_none() {
                first = Some(elements[i].index);
            }
            wires.push(elements[i].wire.copy());
            rows.push(row_of(&elements[i]));
        }
    }
    assert(all.take(elements@.len() as int) =~= all);
    assert(hits == model::picked(all, pick));
    match first {
        None => Err(Failure::Plain("No matching elements found".to_owned())),
        Some(index) => {
            let count = wires.len();
            let summary = count_of(count, "matches");
            proof {
                assert(model::each(wires@) =~= Seq::new(hits.len(), |i: int| hits[i].wire));
                text::lemma_texts_index(rows@);
                assert(text::texts(rows@) =~= Seq::new(hits.len(), |i: int| row(hits[i])));
            }
            let items = Json::object().with("matches", array_of(wires)).with(
                "count",
                Json::number(count as u64),
            );
            Ok(
                Found {
                    output: CommandOutput::List { items, human_lines: rows, summary },
                    action: action_of(index, click, fill),
                },
            )
        },
    }
}

/// What is found is exactly what meets every criterion, in the order of the page, and it is shown
/// whole: in JSON, counted, and each on a line. What is done is done to the first of it. Without a
/// criterion, and where nothing meets them, it fails.
pub proof fn law_what_meets_the_criteria_is_found(
    elements: Vec<InteractiveElement>,
    filter: ElementFilter,
    click: bool,
    fill: Option<&str>,
    r: Result<Found, Failure>,
) -> (at: Seq<int>)
    requires
        call_ensures(find, (&elements, &filter, click, fill), r),
    ensures
        forall|i: int| 0 <= i < at.len() ==> 0 <= #[trigger] at[i] < elements@.len(),
        forall|i: int, j: int| 0 <= i < j < at.len() ==> at[i] < at[j],
        forall|k: int|
            0 <= k < elements@.len() ==> (at.contains(k) <==> find::element_matches(
                (#[trigger] elements@[k])@,
                filter@,
            )),
        r is Ok <==> at.len() > 0 && !(filter.role is None && filter.text is None && filter.label
            is None && filter.placeholder is None && filter.tag is None),
        r matches Err(e) ==> e is Plain,
        r matches Ok(found) ==> {
            &&& found.output matches CommandOutput::List { items, human_lines, summary } && {
                &&& items@.get("matches"@) matches Some(JsonView::Array(list)) && list.len()
                    == at.len() && forall|i: int|
                    0 <= i < at.len() ==> #[trigger] list[i] == elements@[at[i]].wire@
                &&& items@.get("count"@) == Some(JsonView::Num(crate::json::NumberView::Unsigned(at.len() as u64)))
                &&& human_lines@.len() == at.len()
                &&& forall|i: int|
                    0 <= i < at.len() ==> (#[trigger] human_lines@[i])@ == "["@ + text::decimal(
                        elements@[at[i]].index as nat,
                    ) + "] "@ + elements@[at[i]].tag@ + " \""@ + elements@[at[i]].text@ + "\""@
            }
            &&& !click && fill is None ==> found.action is None
            &&& click || fill is Some ==> (found.action matches Some(m) && {
                &&& m@.get("type"@) == Some(JsonView::Str("executeAction"@))
                &&& m@.get("action"@) matches Some(a) && {
                    &&& a.get("index"@) == Some(
                        JsonView::Num(crate::json::NumberView::Unsigned(elements@[at[0]].index as u64)),
                    )
                    &&& click ==> a.get("action"@) == Some(JsonView::Str("Click"@))
                    &&& !click ==> a.get("action"@) == Some(JsonView::Str("Type"@)) && a.get(
                        "text"@,
                    ) == Some(JsonView::Str(fill->0@)) && a.get("clear"@) == Some(
                        JsonView::Bool(true),
                    )
                }
            })
        },
{
    reveal_strlit("matches");
    reveal_strlit("count");
    assert("matches"@.len() == 7);
    assert("count"@.len() == 5);
    reveal_strlit("type");
    reveal_strlit("action");
    assert("type"@.len() == 4);
    assert("action"@.len() == 6);
    reveal_strlit("action");
    reveal_strlit("index");
    reveal_strlit("text");
    reveal_strlit("clear");
    assert("action"@.len() == 6);
    assert("index"@.len() == 5);
    assert("text"@.len() == 4);
    assert("clear"@.len() == 5);
    assert("index"@[0] != "clear"@[0]);
    let all = model::each(elements@);
    let pick = |el: ElementView| find::element_matches(el, filter@);
    let at = model::law_picked_in_order(all, pick);
    let hits = find::matching(all, filter@);
    assert(hits == model::picked(all, pick));
    assert forall|k: int| 0 <= k < elements@.len() implies (at.contains(k) <==> find::element_matches(
        (#[trigger] elements@[k])@,
        filter@,
    )) by {
        assert(all[k] == elements@[k]@);
        assert(pick(all[k]) <==> at.contains(k));
    }
    if let Ok(found) = r {
        assert(hits[0] == all[at[0]]);
        if let CommandOutput::List { items, human_lines, summary } = found.output {
            text::lemma_texts_index(human_lines@);
            assert forall|i: int| 0 <= i < at.len() implies (#[trigger] human_lines@[i])@ == row(
                elements@[at[i]]@,
            ) by {
                assert(text::texts(human_lines@)[i] == human_lines@[i]@);
                assert(hits[i] == all[at[i]]);
            }
            if let Some(JsonView::Array(list)) = items@.get("matches"@) {
                assert forall|i: int| 0 <= i < at.len() implies #[trigger] list[i]
                    == elements@[at[i]].wire@ by {
                    assert(hits[i] == all[at[i]]);
                }
            }
        }
    }
    at
}

/// What is listed is counted below it.
pub proof fn law_matches_are_counted(elements: Vec<InteractiveElement>, filter: ElementFilter, click: bool, fill: Option<&str>, r: Result<Found, Failure>)
    requires
        call_ensures(find, (&elements, &filter, click, fill), r),
    ensures
        r matches Ok(found) ==> (found.output matches CommandOutput::List { items, human_lines, summary } ==> summary@
            == "("@ + text::decimal(human_lines@.len()) + " "@ + "matches"@ + ")"@),
{
    if let Ok(found) = r {
        if let CommandOutput::List { items, human_lines, summary } = found.output {
            text::lemma_texts_index(human_lines@);
        }
    }
}

} // verus!
