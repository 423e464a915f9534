//! Actions on a page.
use crate::headless;
use crate::headless::{execute_action, field_is, message, str_or, Failure, FailureView};
use crate::json::{Json, JsonView};
use crate::text::chars_of;
use crate::text;
use vstd::prelude::*;

verus! {

/// How an action is carried out.
pub enum ActionPlan {
    /// Goes to an address, by the browser itself.
    Navigate(String),
    /// Runs a script and waits for the page to have gone on.
    Script { expression: &'static str, event: &'static str },
    /// Loads the page again and waits for it.
    Reload { event: &'static str },
    /// Moves the pointer from where one element stands to another: first asks where they stand.
    Drag { coordinates: Json },
    /// Has the code in the page do it.
    Bridge(Json),
}

/// What a plan is.
pub enum PlanView {
    Navigate(Seq<char>),
    Script(Seq<char>, Seq<char>),
    Reload(Seq<char>),
    Drag(JsonView),
    Bridge(JsonView),
}

impl View for ActionPlan {
    type V = PlanView;

    open spec fn view(&self) -> PlanView {
        match self {
            ActionPlan::Navigate(url) => PlanView::Navigate(url@),
            ActionPlan::Script { expression, event } => PlanView::Script(expression@, event@),
            ActionPlan::Reload { event } => PlanView::Reload(event@),
            ActionPlan::Drag { coordinates } => PlanView::Drag(coordinates@),
            ActionPlan::Bridge(m) => PlanView::Bridge(m@),
        }
    }
}

/// A letter of the English alphabet as a capital; any other character as it is.
pub open spec fn capital(c: char) -> char {
    if 'a' <= c <= 'z' {
        (c as int - 32) as char
    } else {
        c
    }
}

/// Words with underscores between them as one word, each part with a capital.
pub open spec fn camel(name: Seq<char>) -> Seq<char>
    decreases name.len(),
{
    if name.len() == 0 {
        Seq::empty()
    } else if name.last() == '_' {
        camel(name.drop_last())
    } else if name.len() == 1 || name[name.len() - 2] == '_' {
        camel(name.drop_last()).push(capital(name.last()))
    } else {
        camel(name.drop_last()).push(name.last())
    }
}

fn camel_name(name: &str) -> (r: String)
    ensures
        r@ == camel(name@),
{
    let chars = chars_of(name);
    let mut out = String::new();
    let mut i: usize = 0;
    while i < chars.len()
        invariant
            i <= chars.len(),
            chars@ == name@,
            out@ == camel(name@.take(i as int)),
        decreases chars.len() - i,
    {
        let c = chars[i];
        assert(name@.take(i + 1).drop_last() == name@.take(i as int));
        if c != '_' {
            if i == 0 || chars[i - 1] == '_' {
                if 'a' <= c && c <= 'z' {
                    out.push((c as u8 - 32) as char);
                } else {
                    out.push(c);
                }
            } else {
                out.push(c);
            }
        }
        i += 1;
    }
    assert(name@.take(name@.len() as int) == name@);
    out
}

/// An action as the code in the page reads it: its kind, `key_press`, is the action `KeyPress`.
pub open spec fn page_action_of(action: JsonView) -> JsonView {
    action.without("kind"@).with(
        "action"@,
        JsonView::Str(camel(headless::text_or(action, "kind"@, ""@))),
    )
}

/// An action as the code in the page reads it.
pub fn page_action(action: Json) -> (r: Json)
    ensures
        r@ == page_action_of(action@),
{
    let kind = str_or(&action, "kind", "");
    let name = camel_name(kind.as_str());
    action.without("kind").with("action", Json::Str(name))
}

/// The message that asks where the elements of a drag stand.
pub open spec fn coordinates_message(action: JsonView) -> JsonView {
    headless::plain_message("getElementCoords"@).with(
        "source"@,
        action.get_or_null("source"@),
    ).with("target"@, action.get_or_null("target"@))
}

/// How an action is carried out.
pub open spec fn plan_of(action: JsonView) -> PlanView {
    let kind = action.get_str("action"@);
    if kind == Some("Navigate"@) {
        PlanView::Navigate(headless::text_or(action, "url"@, ""@))
    } else if kind == Some("Back"@) {
        PlanView::Script("history.back()"@, "Page.frameNavigated"@)
    } else if kind == Some("Forward"@) {
        PlanView::Script("history.forward()"@, "Page.frameNavigated"@)
    } else if kind == Some("Reload"@) {
        PlanView::Reload("Page.loadEventFired"@)
    } else if kind == Some("Drag"@) {
        PlanView::Drag(coordinates_message(action))
    } else {
        PlanView::Bridge(headless::action_message(action))
    }
}

/// How an action is carried out: what moves the page on by the browser itself, the rest by the
/// code in the page.
pub fn plan(action: Json) -> (r: ActionPlan)
    ensures
        r@ == plan_of(action@),
{
    if field_is(&action, "action", "Navigate") {
        ActionPlan::Navigate(str_or(&action, "url", ""))
    } else if field_is(&action, "action", "Back") {
        ActionPlan::Script { expression: "history.back()", event: "Page.frameNavigated" }
    } else if field_is(&action, "action", "Forward") {
        ActionPlan::Script { expression: "history.forward()", event: "Page.frameNavigated" }
    } else if field_is(&action, "action", "Reload") {
        ActionPlan::Reload { event: "Page.loadEventFired" }
    } else if field_is(&action, "action", "Drag") {
        let coordinates = message("getElementCoords").with(
            "source",
            action.get_or_null("source"),
        ).with("target", action.get_or_null("target"));
        ActionPlan::Drag { coordinates }
    } else {
        ActionPlan::Bridge(execute_action(action))
    }
}

/// Where the elements of a drag stand, unless the page says that it cannot tell.
pub fn drag_coordinates(answer: Json) -> (r: Result<Json, Failure>)
    ensures
        headless::outcome(r) == (match answer@.get_str("error"@) {
            Some(e) => Err(FailureView::Plain(e)),
            None => Ok(answer@),
        }),
{
    match answer.get_str("error") {
        Some(e) => Err(Failure::Plain(e.to_owned())),
        None => Ok(answer),
    }
}

/// How an action is carried out: what moves the page on by the browser itself, a drag by asking where
/// its two elements stand, and everything else by the code in the page, which gets the action as it is.
pub proof fn law_actions_are_carried_out(action: Json, r: ActionPlan)
    requires
        call_ensures(plan, (action,), r),
    ensures
        ({
            let kind = |k: Seq<char>| action@.get("action"@) == Some(JsonView::Str(k));
            let or_null = |key: Seq<char>|
                Some(
                    match action@.get(key) {
                        Some(v) => v,
                        None => JsonView::Null,
                    },
                );
            &&& kind("Navigate"@) ==> (r matches ActionPlan::Navigate(url) && match action@.get(
                "url"@,
            ) {
                Some(JsonView::Str(u)) => url@ == u,
                _ => url@.len() == 0,
            })
            &&& kind("Back"@) ==> (r matches ActionPlan::Script { expression, event } && expression@
                == "history.back()"@ && event@ == "Page.frameNavigated"@)
            &&& kind("Forward"@) ==> (r matches ActionPlan::Script { expression, event }
                && expression@ == "history.forward()"@ && event@ == "Page.frameNavigated"@)
            &&& kind("Reload"@) ==> (r matches ActionPlan::Reload { event } && event@
                == "Page.loadEventFired"@)
            &&& kind("Drag"@) ==> (r matches ActionPlan::Drag { coordinates } && coordinates@.get(
                "type"@,
            ) == Some(JsonView::Str("getElementCoords"@)) && coordinates@.get("source"@) == or_null(
                "source"@,
            ) && coordinates@.get("target"@) == or_null("target"@))
            &&& !kind("Navigate"@) && !kind("Back"@) && !kind("Forward"@) && !kind("Reload"@)
                && !kind("Drag"@) ==> (r matches ActionPlan::Bridge(m) && m@.get("type"@) == Some(
                JsonView::Str("executeAction"@),
            ) && m@.get("action"@) == Some(action@))
        }),
{
    reveal_strlit("Navigate");
    reveal_strlit("Back");
    reveal_strlit("Forward");
    reveal_strlit("Reload");
    reveal_strlit("Drag");
    assert("Navigate"@.len() == 8);
    assert("Back"@.len() == 4);
    assert("Forward"@.len() == 7);
    assert("Reload"@.len() == 6);
    assert("Drag"@.len() == 4);
    assert("Back"@[0] != "Drag"@[0]);
    reveal_strlit("type");
    reveal_strlit("source");
    reveal_strlit("target");
    assert("type"@.len() == 4);
    assert("source"@.len() == 6);
    assert("target"@.len() == 6);
    assert("source"@[0] != "target"@[0]);
    reveal_strlit("type");
    reveal_strlit("action");
    assert("type"@.len() == 4);
    assert("action"@.len() == 6);
    reveal_strlit("");
    assert(""@ =~= Seq::<char>::empty());
}

/// An action as the code in the page reads it is the action under the name of its kind, with a capital
/// for each word, and every other field as it was.
pub proof fn law_actions_are_handed_to_the_page(
    action: Json,
    fields: Map<Seq<char>, JsonView>,
    kind: Seq<char>,
    r: Json,
    key: Seq<char>,
)
    requires
        action@ == JsonView::Object(fields),
        action@.get("kind"@) == Some(JsonView::Str(kind)),
        call_ensures(page_action, (action,), r),
    ensures
        r@.get("action"@) == Some(JsonView::Str(camel(kind))),
        r@.get("kind"@) is None,
        key != "action"@ && key != "kind"@ ==> r@.get(key) == action@.get(key),
{
    reveal_strlit("kind");
    reveal_strlit("action");
    assert("kind"@.len() == 4);
    assert("action"@.len() == 6);
}

/// One word gets a capital; of two words joined by an underscore each gets one, and the underscore is
/// left out.
pub proof fn law_words_get_capitals(first: Seq<char>, word: Seq<char>)
    requires
        word.len() > 0,
        forall|i: int| 0 <= i < word.len() ==> 'a' <= #[trigger] word[i] <= 'z',
    ensures
        camel(Seq::empty()) == Seq::<char>::empty(),
        camel(word).len() == word.len(),
        camel(word)[0] as int == word[0] as int - 32,
        forall|i: int| 0 < i < word.len() ==> #[trigger] camel(word)[i] == word[i],
        camel(first + seq!['_'] + word) == camel(first) + camel(word),
    decreases word.len(),
{
    let front = word.drop_last();
    let whole = first + seq!['_'] + word;
    let n = word.len() as int;
    assert('a' <= word[n - 1] <= 'z');
    assert(whole.last() == word.last());
    assert(whole.drop_last() =~= first + seq!['_'] + front);
    assert((first + seq!['_']).drop_last() =~= first);
    if n == 1 {
        assert(front =~= Seq::<char>::empty());
        assert(camel(front) =~= Seq::<char>::empty());
        assert(first + seq!['_'] + front =~= first + seq!['_']);
        assert(camel(first + seq!['_']) == camel(first));
        assert(whole[whole.len() - 2] == '_');
        assert(camel(word) =~= Seq::<char>::empty().push(capital(word[0])));
        assert(camel(whole) =~= camel(first) + camel(word));
    } else {
        assert forall|i: int| 0 <= i < front.len() implies 'a' <= #[trigger] front[i] <= 'z' by {
            assert(front[i] == word[i]);
        }
        law_words_get_capitals(first, front);
        assert('a' <= word[n - 2] <= 'z');
        assert(whole[whole.len() - 2] == word[n - 2]);
        assert(camel(word) == camel(front).push(word.last()));
        assert forall|i: int| 0 < i < word.len() implies #[trigger] camel(word)[i] == word[i] by {
            if i < n - 1 {
                assert(camel(front)[i] == front[i]);
            }
        }
        assert(camel(whole) =~= camel(first) + camel(word));
    }
}

/// Where the elements of a drag stand is handed on as the page tells it, unless it says why it cannot.
pub proof fn law_drags_know_where_to_go(answer: Json, r: Result<Json, Failure>)
    requires
        call_ensures(drag_coordinates, (answer,), r),
    ensures
        match answer@.get("error"@) {
            Some(JsonView::Str(e)) => r matches Err(Failure::Plain(m)) && m@ == e,
            _ => r matches Ok(v) && v@ == answer@,
        },
{
}

} // verus!
