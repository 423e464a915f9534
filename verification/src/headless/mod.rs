//! What the headless browser is asked, and what its answers come to.
pub mod action;
pub mod capture;
pub mod console;
pub mod context;
pub mod cookies;
pub mod device;
pub mod dom;
pub mod eval;
pub mod fetch;
pub mod find;
pub mod frames;
pub mod network;
pub mod policy;
pub mod profile;
pub mod record;
pub mod session;
pub mod status;
pub mod tabs;
pub mod wait;

use crate::json;
use crate::json::{Json, JsonView};
use crate::model;
use crate::text;
use crate::text::{before_first, dec, same, starts_with};
use vstd::prelude::*;
use vstd::string::StringExecFns;

verus! {

/// Why a command failed.
#[derive(Debug, PartialEq, Eq)]
pub enum Failure {
    /// There is no page.
    NoPage(String),
    /// Something took too long.
    Timeout(String),
    /// The code in the page failed.
    Bridge { code: String, message: String },
    /// Anything else.
    Plain(String),
}

/// What a failure is.
pub enum FailureView {
    NoPage(Seq<char>),
    Timeout(Seq<char>),
    Bridge(Seq<char>, Seq<char>),
    Plain(Seq<char>),
}

impl View for Failure {
    type V = FailureView;

    open spec fn view(&self) -> FailureView {
        match self {
            Failure::NoPage(m) => FailureView::NoPage(m@),
            Failure::Timeout(m) => FailureView::Timeout(m@),
            Failure::Bridge { code, message } => FailureView::Bridge(code@, message@),
            Failure::Plain(m) => FailureView::Plain(m@),
        }
    }
}

/// The model of what a command comes to.
pub open spec fn outcome<T: View>(r: Result<T, Failure>) -> Result<T::V, FailureView> {
    match r {
        Ok(v) => Ok(v@),
        Err(e) => Err(e@),
    }
}

/// The string in a field of an answer, or another in its place.
pub open spec fn text_or(value: JsonView, key: Seq<char>, other: Seq<char>) -> Seq<char> {
    match value.get_str(key) {
        Some(t) => t,
        None => other,
    }
}

/// The string in a field of an answer, or another in its place.
pub fn str_or(value: &Json, key: &str, other: &str) -> (r: String)
    ensures
        r@ == text_or(value@, key@, other@),
{
    match value.get_str(key) {
        Some(t) => t.to_owned(),
        None => other.to_owned(),
    }
}

/// Whether a field of an answer holds a string.
pub fn field_is(value: &Json, key: &str, wanted: &str) -> (r: bool)
    ensures
        r == (value@.get_str(key@) == Some(wanted@)),
{
    match value.get_str(key) {
        Some(t) => same(t, wanted),
        None => false,
    }
}

/// The entries of an answer that is a list; none of any other.
pub open spec fn list_of(value: JsonView) -> Seq<JsonView> {
    match value {
        JsonView::Array(items) => items,
        _ => Seq::empty(),
    }
}

/// The entries of an answer that is a list; none of any other.
pub fn entries_of(value: &Json) -> (r: Vec<Json>)
    ensures
        model::each(r@) == list_of(value@),
{
    let mut out: Vec<Json> = Vec::new();
    if let Json::Array(items) = value {
        proof {
            json::lemma_array_view(*items);
            json::lemma_views_index(items@);
        }
        for i in 0..items.len()
            invariant
                out@.len() == i,
                forall|j: int| 0 <= j < i ==> (#[trigger] out@[j])@ == items@[j]@,
        {
            out.push(items[i].copy());
        }
        assert(model::each(out@) =~= json::views(items@));
    } else {
        assert(model::each(out@) =~= Seq::empty());
    }
    out
}

/// A list as JSON.
pub fn array_of(items: Vec<Json>) -> (r: Json)
    ensures
        r@ == JsonView::Array(model::each(items@)),
{
    proof {
        json::lemma_array_view(items);
        json::lemma_views_index(items@);
        assert(model::each(items@) =~= json::views(items@));
    }
    Json::Array(items)
}

/// The entries under a field of an answer; none where there is no list.
pub open spec fn list_at(value: JsonView, key: Seq<char>) -> Seq<JsonView> {
    match value.get(key) {
        Some(v) => list_of(v),
        None => Seq::empty(),
    }
}

/// The entries under a field of an answer; none where there is no list.
pub fn entries_at(value: &Json, key: &str) -> (r: Vec<Json>)
    ensures
        model::each(r@) == list_at(value@, key@),
{
    match value.get(key) {
        Some(v) => entries_of(v),
        None => {
            let none: Vec<Json> = Vec::new();
            assert(model::each(none@) =~= Seq::empty());
            none
        },
    }
}

/// A number in brackets before what it counts.
pub open spec fn counted(n: nat, what: Seq<char>) -> Seq<char> {
    "("@ + text::decimal(n) + " "@ + what + ")"@
}

/// A number in brackets before what it counts.
pub fn count_of(n: usize, what: &str) -> (r: String)
    ensures
        r@ == counted(n as nat, what@),
{
    "(".to_owned().concat(dec(n as u64).as_str()).concat(" ").concat(what).concat(")")
}

/// Whether a target of the browser is a page.
pub open spec fn is_page(target: JsonView) -> bool {
    target.get_str("type"@) == Some("page"@)
}

/// Whether a target is the page that was asked for: any page of the context, or this very page
/// where there is no context.
pub open spec fn is_wanted(target: JsonView, context: Option<Seq<char>>, original: Seq<char>) -> bool {
    is_page(target) && match context {
        Some(c) => target.get_str("browserContextId"@) == Some(c),
        None => target.get_str("targetId"@) == Some(original),
    }
}

/// Whether the item at a position is the first that meets a condition.
pub open spec fn is_first<V>(items: Seq<V>, pick: spec_fn(V) -> bool, at: int) -> bool {
    &&& 0 <= at < items.len()
    &&& pick(items[at])
    &&& forall|k: int| 0 <= k < at ==> !pick(#[trigger] items[k])
}

/// Whether no item meets a condition.
pub open spec fn is_none<V>(items: Seq<V>, pick: spec_fn(V) -> bool) -> bool {
    forall|k: int| 0 <= k < items.len() ==> !pick(#[trigger] items[k])
}

/// Whether the target at a position is the first page.
pub open spec fn is_first_page(targets: Seq<JsonView>, at: int) -> bool {
    is_first(targets, |t: JsonView| is_page(t), at)
}

/// Whether no target is a page.
pub open spec fn has_no_page(targets: Seq<JsonView>) -> bool {
    is_none(targets, |t: JsonView| is_page(t))
}

/// The position of the first page among the browser's targets.
pub fn first_page(targets: &Vec<Json>) -> (r: Option<usize>)
    ensures
        match r {
            Some(i) => is_first_page(model::each(targets@), i as int),
            None => has_no_page(model::each(targets@)),
        },
{
    for i in 0..targets.len()
        invariant
            forall|k: int| 0 <= k < i ==> !is_page(#[trigger] model::each(targets@)[k]),
    {
        assert(model::each(targets@)[i as int] == targets@[i as int]@);
        if field_is(&targets[i], "type", "page") {
            return Some(i);
        }
    }
    None
}

fn wanted(target: &Json, context: Option<&str>, original: &str) -> (r: bool)
    ensures
        r == is_wanted(target@, model::maybe(context), original@),
{
    field_is(target, "type", "page") && match context {
        Some(c) => field_is(target, "browserContextId", c),
        None => field_is(target, "targetId", original),
    }
}

/// Whether a target is found as the page to go on with.
pub open spec fn is_found(
    targets: Seq<JsonView>,
    context: Option<Seq<char>>,
    original: Seq<char>,
    at: Option<int>,
) -> bool {
    let pick = |t: JsonView| is_wanted(t, context, original);
    match at {
        Some(i) => is_first(targets, pick, i) || (context is None && is_none(targets, pick)
            && is_first_page(targets, i)),
        None => is_none(targets, pick) && (context is None ==> has_no_page(targets)),
    }
}

/// The position of the page to go on with: the first page of the context; without a context the
/// page itself or, where it is gone, the first page.
pub fn find_page_target(targets: &Vec<Json>, context: Option<&str>, original: &str) -> (r: Option<
    usize,
>)
    ensures
        is_found(
            model::each(targets@),
            model::maybe(context),
            original@,
            match r {
                Some(i) => Some(i as int),
                None => None,
            },
        ),
{
    let ghost ctx = model::maybe(context);
    for i in 0..targets.len()
        invariant
            ctx == model::maybe(context),
            forall|k: int|
                0 <= k < i ==> !is_wanted(#[trigger] model::each(targets@)[k], ctx, original@),
    {
        assert(model::each(targets@)[i as int] == targets@[i as int]@);
        if wanted(&targets[i], context, original) {
            return Some(i);
        }
    }
    if context.is_some() {
        None
    } else {
        first_page(targets)
    }
}

/// The address of a page's own connection, on the browser that answers at `ws_url`.
pub open spec fn page_address(ws_url: Seq<char>, target: Seq<char>, r: Seq<char>) -> bool {
    let rest = "/devtools/page/"@ + target;
    if text::holds(ws_url, "/devtools/"@) {
        exists|at: int| #[trigger]
            text::is_first_at(ws_url, "/devtools/"@, at) && r == ws_url.take(at) + rest
    } else {
        r == ws_url + rest
    }
}

/// The address of a page's own connection.
pub fn page_ws_url(ws_url: &str, target_id: &str) -> (r: String)
    ensures
        page_address(ws_url@, target_id@, r@),
{
    let authority = before_first(ws_url, "/devtools/");
    let rest = "/devtools/page/".to_owned().concat(target_id);
    authority.concat(rest.as_str())
}

/// The page that a command without a context goes to.
pub fn default_target(targets: &Vec<Json>) -> (r: Result<String, Failure>)
    ensures
        match outcome(r) {
            Ok(id) => exists|i: int| #[trigger]
                is_first_page(model::each(targets@), i) && id == text_or(
                    model::each(targets@)[i],
                    "targetId"@,
                    ""@,
                ),
            Err(e) => has_no_page(model::each(targets@)) && e
                == FailureView::NoPage("No page target found"@),
        },
{
    match first_page(targets) {
        Some(i) => {
            assert(is_first_page(model::each(targets@), i as int));
            Ok(str_or(&targets[i], "targetId", ""))
        },
        None => Err(Failure::NoPage("No page target found".to_owned())),
    }
}

/// The address of the page to go on with, empty where it is not known.
pub fn current_url(targets: Option<&Vec<Json>>, context: Option<&str>, original: &str) -> (r: String)
    ensures
        match targets {
            Some(ts) => exists|at: Option<int>| #[trigger]
                is_found(model::each(ts@), model::maybe(context), original@, at) && r@ == (
                match at {
                    Some(i) => text_or(model::each(ts@)[i], "url"@, ""@),
                    None => ""@,
                }),
            None => r@ == ""@,
        },
{
    match targets {
        Some(ts) => match find_page_target(ts, context, original) {
            Some(i) => {
                assert(is_found(
                    model::each(ts@),
                    model::maybe(context),
                    original@,
                    Some(i as int),
                ));
                str_or(&ts[i], "url", "")
            },
            None => {
                assert(is_found(model::each(ts@), model::maybe(context), original@, None));
                "".to_owned()
            },
        },
        None => "".to_owned(),
    }
}

/// Whether a page has come to where a navigation takes it.
pub open spec fn has_arrived(url: Seq<char>, before: Seq<char>) -> bool {
    url != before && url != "about:blank"@ && text::has_prefix(url, "http"@)
}

/// What a navigation does after it has looked at the browser's targets.
#[derive(Debug, Clone, Copy, PartialEq, Eq, Structural)]
pub enum NavigationStep {
    /// The page is there.
    Arrived,
    /// Looks again.
    Again,
    /// Gives up.
    TimedOut,
}

/// What a navigation does after it has looked at the browser's targets, if they could be had. That
/// the page is there counts, however late it is.
pub fn navigation_step(
    targets: Option<&Vec<Json>>,
    context: Option<&str>,
    original: &str,
    before: &str,
    expired: bool,
) -> (r: NavigationStep)
    ensures
        !(r is Arrived) ==> (r is TimedOut <==> expired),
        match targets {
            Some(ts) => exists|at: Option<int>| #[trigger]
                is_found(model::each(ts@), model::maybe(context), original@, at) && (
                r is Arrived <==> at is Some && has_arrived(
                    text_or(model::each(ts@)[at->0], "url"@, ""@),
                    before@,
                )),
            None => !(r is Arrived),
        },
{
    if let Some(ts) = targets {
        match find_page_target(ts, context, original) {
            Some(i) => {
                assert(is_found(
                    model::each(ts@),
                    model::maybe(context),
                    original@,
                    Some(i as int),
                ));
                let url = str_or(&ts[i], "url", "");
                let u = url.as_str();
                if !same(u, before) && !same(u, "about:blank") && starts_with(u, "http") {
                    return NavigationStep::Arrived;
                }
            },
            None => {
                assert(is_found(model::each(ts@), model::maybe(context), original@, None));
            },
        }
    }
    if expired {
        NavigationStep::TimedOut
    } else {
        NavigationStep::Again
    }
}

/// The error of a navigation that took too long.
pub fn navigation_timeout(seconds: u64) -> (r: Failure)
    ensures
        r@ == FailureView::Timeout(
            "Navigation timeout: page did not load within "@ + text::decimal(seconds as nat)
                + "s"@,
        ),
{
    Failure::Timeout(
        "Navigation timeout: page did not load within ".to_owned().concat(
            dec(seconds).as_str(),
        ).concat("s"),
    )
}

/// The page to connect to after a navigation.
pub fn target_after_navigation(targets: &Vec<Json>, context: Option<&str>, original: &str) -> (r: Result<
    String,
    Failure,
>)
    ensures
        match outcome(r) {
            Ok(id) => exists|i: int| #[trigger]
                is_found(model::each(targets@), model::maybe(context), original@, Some(i)) && id
                    == text_or(model::each(targets@)[i], "targetId"@, ""@),
            Err(e) => is_found(model::each(targets@), model::maybe(context), original@, None) && e
                == FailureView::NoPage("No page target found after navigation"@),
        },
{
    match find_page_target(targets, context, original) {
        Some(i) => {
            assert(is_found(
                model::each(targets@),
                model::maybe(context),
                original@,
                Some(i as int),
            ));
            Ok(str_or(&targets[i], "targetId", ""))
        },
        None => Err(Failure::NoPage("No page target found after navigation".to_owned())),
    }
}

/// Whether the page still needs the code that answers messages.
pub fn needs_bridge(loaded: &Json) -> (r: bool)
    ensures
        r == (loaded@.as_bool() != Some(true)),
{
    match loaded.as_bool() {
        Some(b) => !b,
        None => true,
    }
}

/// The call that hands a message to the code in the page.
pub fn bridge_call(message: &Json) -> (r: String)
    ensures
        r@ == "(async function() { return await handleMessage("@ + json::written(message@)
            + "); })()"@,
{
    "(async function() { return await handleMessage(".to_owned().concat(
        message.to_text().as_str(),
    ).concat("); })()")
}

/// A message with nothing but its type.
pub open spec fn plain_message(kind: Seq<char>) -> JsonView {
    JsonView::object().with("type"@, JsonView::Str(kind))
}

/// A message with nothing but its type.
pub fn message(kind: &str) -> (r: Json)
    ensures
        r@ == plain_message(kind@),
{
    Json::object().with("type", Json::string(kind))
}

/// The message that has an action carried out.
pub open spec fn action_message(action: JsonView) -> JsonView {
    plain_message("executeAction"@).with("action"@, action)
}

/// The message that has an action carried out.
pub fn execute_action(action: Json) -> (r: Json)
    ensures
        r@ == action_message(action@),
{
    message("executeAction").with("action", action)
}

/// The message that asks for the page's elements.
pub open spec fn extract_message(options: JsonView) -> JsonView {
    plain_message("extractDOM"@).with("options"@, options)
}

/// The message that asks for the page's elements.
pub fn extract_dom(options: Json) -> (r: Json)
    ensures
        r@ == extract_message(options@),
{
    message("extractDOM").with("options", options)
}

/// What an answer of the code in the page says: it failed only where it says so.
pub open spec fn bridge_answer(value: JsonView) -> Result<JsonView, FailureView> {
    let failed = match value.get("success"@) {
        Some(s) => s.as_bool() == Some(false),
        None => false,
    };
    if !failed {
        Ok(value)
    } else {
        let message = match value.str_at2("error"@, "message"@) {
            Some(m) => m,
            None => text_or(value, "error"@, "Unknown bridge error"@),
        };
        let code = match value.str_at2("error"@, "code"@) {
            Some(c) => c,
            None => "Unknown"@,
        };
        Err(FailureView::Bridge(code, message))
    }
}

/// What an answer of the code in the page says.
pub fn parse_bridge_response(value: Json) -> (r: Result<Json, Failure>)
    ensures
        outcome(r) == bridge_answer(value@),
{
    let failed = match value.get("success") {
        Some(s) => match s.as_bool() {
            Some(b) => !b,
            None => false,
        },
        None => false,
    };
    if !failed {
        return Ok(value);
    }
    let message = match value.str_at2("error", "message") {
        Some(m) => m.to_owned(),
        None => str_or(&value, "error", "Unknown bridge error"),
    };
    let code = match value.str_at2("error", "code") {
        Some(c) => c.to_owned(),
        None => "Unknown".to_owned(),
    };
    Err(Failure::Bridge { code, message })
}

/// A command in a context never goes on with a page of another: whatever page is found is one of
/// the context's.
pub proof fn law_contexts_stay_apart(
    targets: Seq<JsonView>,
    context: Seq<char>,
    original: Seq<char>,
    at: int,
)
    requires
        is_found(targets, Some(context), original, Some(at)),
    ensures
        0 <= at < targets.len(),
        is_page(targets[at]),
        targets[at].get_str("browserContextId"@) == Some(context),
{
}

/// What is found is settled by the targets: no two positions are found in one list.
pub proof fn law_one_page_is_found(
    targets: Seq<JsonView>,
    context: Option<Seq<char>>,
    original: Seq<char>,
    a: Option<int>,
    b: Option<int>,
)
    requires
        is_found(targets, context, original, a),
        is_found(targets, context, original, b),
    ensures
        a == b,
{
    let pick = |t: JsonView| is_wanted(t, context, original);
    if let Some(i) = a {
        assert(pick(targets[i]) || is_page(targets[i]));
        if let Some(j) = b {
            assert(pick(targets[j]) || is_page(targets[j]));
        }
    }
    if let Some(j) = b {
        assert(pick(targets[j]) || is_page(targets[j]));
    }
}

/// A text of an answer is what its field holds, or what stands in for it where that is no text; a
/// list is what stands there, and empty where there is none.
pub proof fn law_answers_are_read(
    value: Json,
    key: &str,
    other: &str,
    t: String,
    same_as_other: bool,
    list: Vec<Json>,
    under: Vec<Json>,
)
    requires
        call_ensures(str_or, (&value, key, other), t),
        call_ensures(field_is, (&value, key, other), same_as_other),
        call_ensures(entries_of, (&value,), list),
        call_ensures(entries_at, (&value, key), under),
    ensures
        match value@.get(key@) {
            Some(JsonView::Str(s)) => t@ == s && (same_as_other <==> s == other@),
            _ => t@ == other@ && !same_as_other,
        },
        match value@ {
            JsonView::Array(items) => list@.len() == items.len() && forall|i: int|
                0 <= i < items.len() ==> (#[trigger] list@[i])@ == items[i],
            _ => list@.len() == 0,
        },
        match value@.get(key@) {
            Some(JsonView::Array(items)) => under@.len() == items.len() && forall|i: int|
                0 <= i < items.len() ==> (#[trigger] under@[i])@ == items[i],
            _ => under@.len() == 0,
        },
{
    assert forall|i: int| 0 <= i < list@.len() implies (#[trigger] list@[i])@ == model::each(
        list@,
    )[i] by {
    }
    assert forall|i: int| 0 <= i < under@.len() implies (#[trigger] under@[i])@ == model::each(
        under@,
    )[i] by {
    }
    assert(model::each(list@).len() == list@.len());
    assert(model::each(under@).len() == under@.len());
}

/// The page to go on with is a page. In a context it is the first page of that context, and no other
/// context's; without one it is the page itself while it is there, else the first page. None is found
/// only where there is none.
pub proof fn law_the_page_is_found(
    targets: Vec<Json>,
    context: Option<&str>,
    original: &str,
    r: Option<usize>,
    k: int,
)
    requires
        call_ensures(find_page_target, (&targets, context, original), r),
        0 <= k < targets@.len(),
        targets@[k]@.get("type"@) == Some(JsonView::Str("page"@)),
    ensures
        r matches Some(i) ==> i < targets@.len() && targets@[i as int]@.get("type"@) == Some(
            JsonView::Str("page"@),
        ),
        context matches Some(c) ==> {
            let of_context = |t: Json|
                t@.get("browserContextId"@) == Some(JsonView::Str(c@));
            &&& r matches Some(i) ==> of_context(targets@[i as int])
            &&& of_context(targets@[k]) ==> r is Some && r->0 <= k
        },
        context is None ==> {
            let itself = |t: Json| t@.get("targetId"@) == Some(JsonView::Str(original@));
            &&& r is Some
            &&& itself(targets@[k]) ==> itself(targets@[r->0 as int])
            &&& !itself(targets@[r->0 as int]) ==> r->0 <= k
        },
{
    let all = model::each(targets@);
    let ctx = model::maybe(context);
    let pick = |t: JsonView| is_wanted(t, ctx, original@);
    assert(all[k] == targets@[k]@);
    assert(is_page(all[k]));
    if let Some(i) = r {
        if is_first(all, pick, i as int) {
            assert(pick(all[i as int]));
        }
        assert(all[i as int] == targets@[i as int]@);
    }
    if pick(all[k]) {
        assert(!is_none(all, pick));
    }
}

/// What is told of the page to go on with is told of the page that is found: its id, its address, and
/// whether it has come to another address of the web. Without a page there is none to tell of.
pub proof fn law_what_is_told_is_of_the_page(
    targets: Vec<Json>,
    context: Option<&str>,
    original: &str,
    before: &str,
    expired: bool,
    found: Option<usize>,
    url: String,
    id: Result<String, Failure>,
    step: NavigationStep,
    unknown: NavigationStep,
)
    requires
        call_ensures(find_page_target, (&targets, context, original), found),
        call_ensures(current_url, (Some(&targets), context, original), url),
        call_ensures(target_after_navigation, (&targets, context, original), id),
        call_ensures(navigation_step, (Some(&targets), context, original, before, expired), step),
        call_ensures(navigation_step, (None, context, original, before, expired), unknown),
    ensures
        found is None ==> url@.len() == 0 && id is Err && !(step is Arrived),
        found matches Some(i) ==> {
            let page = targets@[i as int]@;
            let said = |key: Seq<char>|
                match page.get(key) {
                    Some(JsonView::Str(t)) => t,
                    _ => Seq::empty(),
                };
            &&& url@ == said("url"@)
            &&& id is Ok && id->Ok_0@ == said("targetId"@)
            &&& step is Arrived <==> url@ != before@ && url@ != "about:blank"@ && text::has_prefix(
                url@,
                "http"@,
            )
        },
        !(step is Arrived) ==> (step is TimedOut <==> expired),
        !(unknown is Arrived) && (unknown is TimedOut <==> expired),
{
    reveal_strlit("");
    assert(""@ =~= Seq::<char>::empty());
    let all = model::each(targets@);
    let ctx = model::maybe(context);
    let at: Option<int> = match found {
        Some(i) => Some(i as int),
        None => None,
    };
    assert forall|other: Option<int>| #[trigger] is_found(all, ctx, original@, other) implies other
        == at by {
        law_one_page_is_found(all, ctx, original@, at, other);
    }
    if let Some(i) = found {
        let pick = |t: JsonView| is_wanted(t, ctx, original@);
        assert(is_first(all, pick, i as int) || is_first_page(all, i as int));
        assert(all[i as int] == targets@[i as int]@);
    }
}

/// Without a context a command goes to the first page, and fails where there is none.
pub proof fn law_the_first_page_is_the_default(targets: Vec<Json>, r: Result<String, Failure>)
    requires
        call_ensures(default_target, (&targets,), r),
    ensures
        r is Ok <==> exists|i: int|
            0 <= i < targets@.len() && (#[trigger] targets@[i])@.get("type"@) == Some(
                JsonView::Str("page"@),
            ),
        r matches Ok(id) ==> exists|i: int|
            {
                &&& 0 <= i < targets@.len()
                &&& (#[trigger] targets@[i])@.get("type"@) == Some(JsonView::Str("page"@))
                &&& match targets@[i]@.get("targetId"@) {
                    Some(JsonView::Str(t)) => id@ == t,
                    _ => id@.len() == 0,
                }
                &&& forall|k: int|
                    0 <= k < i ==> (#[trigger] targets@[k])@.get("type"@) != Some(
                        JsonView::Str("page"@),
                    )
            },
        r matches Err(e) ==> e is NoPage,
{
    reveal_strlit("");
    assert(""@ =~= Seq::<char>::empty());
    let all = model::each(targets@);
    let pick = |t: JsonView| is_page(t);
    if r is Ok {
        let i = choose|i: int| #[trigger]
            is_first_page(all, i) && r->Ok_0@ == text_or(all[i], "targetId"@, ""@);
        assert(pick(all[i]));
        assert(targets@[i]@ == all[i]);
        assert forall|k: int| 0 <= k < i implies (#[trigger] targets@[k])@.get("type"@) != Some(
            JsonView::Str("page"@),
        ) by {
            assert(!pick(all[k]));
        }
    } else {
        assert forall|i: int| 0 <= i < targets@.len() implies (#[trigger] targets@[i])@.get("type"@)
            != Some(JsonView::Str("page"@)) by {
            assert(!pick(all[i]));
        }
    }
}

/// The address of a page's own connection is that of the browser's, up to where its own path starts,
/// and the path of the page.
pub proof fn law_pages_have_addresses(ws_url: &str, target: &str, r: String)
    requires
        call_ensures(page_ws_url, (ws_url, target), r),
    ensures
        text::has_suffix(r@, "/devtools/page/"@ + target@),
        !text::holds(ws_url@, "/devtools/"@) ==> r@ == ws_url@ + "/devtools/page/"@ + target@,
        text::holds(ws_url@, "/devtools/"@) ==> exists|at: int|
            {
                &&& #[trigger] text::stands_at(ws_url@, "/devtools/"@, at)
                &&& r@ == ws_url@.take(at) + "/devtools/page/"@ + target@
                &&& forall|k: int|
                    k < at ==> !#[trigger] text::stands_at(ws_url@, "/devtools/"@, k)
            },
{
    let rest = "/devtools/page/"@ + target@;
    if text::holds(ws_url@, "/devtools/"@) {
        let at = choose|at: int| #[trigger]
            text::is_first_at(ws_url@, "/devtools/"@, at) && r@ == ws_url@.take(at) + rest;
        text::lemma_back(ws_url@.take(at), rest);
        assert(text::stands_at(ws_url@, "/devtools/"@, at));
        assert(r@ =~= ws_url@.take(at) + "/devtools/page/"@ + target@);
    } else {
        text::lemma_back(ws_url@, rest);
        assert(r@ =~= ws_url@ + "/devtools/page/"@ + target@);
    }
}

/// The code in the page is loaded unless the page says that it is there; it is handed each message
/// whole. A message names what it is for, and carries the action or the options as they are.
pub proof fn law_messages_to_the_page(
    loaded: Json,
    needs: bool,
    m: Json,
    call: String,
    action: Json,
    acting: Json,
    options: Json,
    extracting: Json,
)
    requires
        call_ensures(needs_bridge, (&loaded,), needs),
        call_ensures(bridge_call, (&m,), call),
        call_ensures(execute_action, (action,), acting),
        call_ensures(extract_dom, (options,), extracting),
    ensures
        needs <==> loaded@ != JsonView::Bool(true),
        text::holds(call@, "handleMessage("@ + json::written(m@) + ")"@),
        acting@.get("type"@) == Some(JsonView::Str("executeAction"@)),
        acting@.get("action"@) == Some(action@),
        extracting@.get("type"@) == Some(JsonView::Str("extractDOM"@)),
        extracting@.get("options"@) == Some(options@),
{
    reveal_strlit("type");
    reveal_strlit("action");
    reveal_strlit("options");
    assert("type"@.len() == 4);
    assert("action"@.len() == 6);
    assert("options"@.len() == 7);
    reveal_strlit("(async function() { return await handleMessage(");
    reveal_strlit("(async function() { return await ");
    reveal_strlit("handleMessage(");
    reveal_strlit("); })()");
    reveal_strlit("; })()");
    reveal_strlit(")");
    let (a, b) = ("(async function() { return await "@, "; })()"@);
    assert("(async function() { return await handleMessage("@ =~= a + "handleMessage("@);
    assert("); })()"@ =~= ")"@ + b);
    let w = json::written(m@);
    assert(call@ =~= a + ("handleMessage("@ + w + ")"@) + b);
    text::lemma_part(a, "handleMessage("@ + w + ")"@, b);
}

/// An answer of the page is handed on as it is, unless it says that it failed: then the message and
/// the code of its error are told.
pub proof fn law_failures_of_the_page_are_told(value: Json, r: Result<Json, Failure>)
    requires
        call_ensures(parse_bridge_response, (value,), r),
    ensures
        r is Err <==> value@.get("success"@) == Some(JsonView::Bool(false)),
        r matches Ok(v) ==> v@ == value@,
        r matches Err(e) ==> (e matches Failure::Bridge { code, message } && {
            let inner = |key: Seq<char>|
                match value@.get("error"@) {
                    Some(told) => told.get(key),
                    None => None,
                };
            &&& inner("message"@) matches Some(JsonView::Str(m)) ==> message@ == m
            &&& inner("code"@) matches Some(JsonView::Str(c)) ==> code@ == c
            &&& value@.get("error"@) matches Some(JsonView::Str(m)) ==> message@ == m
        }),
{
}

/// What takes too long is told with how long was waited.
pub proof fn law_navigation_timeouts_tell_the_time(seconds: u64, r: Failure)
    requires
        call_ensures(navigation_timeout, (seconds,), r),
    ensures
        r matches Failure::Timeout(m) && text::has_suffix(
            m@,
            text::decimal(seconds as nat) + "s"@,
        ),
{
    let head = "Navigation timeout: page did not load within "@;
    let n = text::decimal(seconds as nat);
    assert(head + n + "s"@ =~= head + (n + "s"@));
    text::lemma_back(head, n + "s"@);
}

/// The first page is a page, and what stands before it is none; where none is found there is none. A
/// list, a count and a message are what they are made of.
pub proof fn law_first_pages_and_plain_parts(
    targets: Vec<Json>,
    r: Option<usize>,
    items: Vec<Json>,
    list: Json,
    n: usize,
    what: &str,
    count: String,
    kind: &str,
    m: Json,
)
    requires
        call_ensures(first_page, (&targets,), r),
        call_ensures(array_of, (items,), list),
        call_ensures(count_of, (n, what), count),
        call_ensures(message, (kind,), m),
    ensures
        r matches Some(at) ==> at < targets@.len() && targets@[at as int]@.get("type"@) == Some(
            JsonView::Str("page"@),
        ) && forall|i: int|
            0 <= i < at ==> (#[trigger] targets@[i])@.get("type"@) != Some(JsonView::Str("page"@)),
        r is None ==> forall|i: int|
            0 <= i < targets@.len() ==> (#[trigger] targets@[i])@.get("type"@) != Some(
                JsonView::Str("page"@),
            ),
        list@ matches JsonView::Array(held) && held.len() == items@.len() && forall|i: int|
            0 <= i < held.len() ==> #[trigger] held[i] == items@[i]@,
        text::holds(count@, text::decimal(n as nat) + " "@ + what@),
        m@.get("type"@) == Some(JsonView::Str(kind@)),
{
    let all = model::each(targets@);
    let d = text::decimal(n as nat);
    assert(count@ =~= "("@ + (d + " "@ + what@) + ")"@);
    text::lemma_part("("@, d + " "@ + what@, ")"@);
    let pick = |t: JsonView| is_page(t);
    match r {
        Some(at) => {
            assert(all[at as int] == targets@[at as int]@);
            assert(pick(all[at as int]));
            assert forall|i: int| 0 <= i < at implies (#[trigger] targets@[i])@.get("type"@) != Some(
                JsonView::Str("page"@),
            ) by {
                assert(all[i] == targets@[i]@);
                assert(!pick(all[i]));
            }
        },
        None => {
            assert forall|i: int| 0 <= i < targets@.len() implies (#[trigger] targets@[i])@.get(
                "type"@,
            ) != Some(JsonView::Str("page"@)) by {
                assert(all[i] == targets@[i]@);
                assert(!pick(all[i]));
            }
        },
    }
}

} // verus!
