//! The cookies of a page's address.
use crate::headless;
use crate::headless::{entries_at, field_is, str_or, Failure, FailureView};
use crate::json::{Json, JsonView};
use crate::model;
use crate::output::{CommandOutput, OutputView};
use crate::text;
use crate::text::shorten;
use vstd::prelude::*;
use vstd::string::StringExecFns;

verus! {

/// What asks for the cookies of an address.
pub fn list_params(url: &str) -> (r: Json)
    ensures
        r@ == JsonView::object().with(
            "urls"@,
            JsonView::array().item(JsonView::Str(url@)),
        ),
{
    Json::object().with("urls", Json::array().item(Json::string(url)))
}

/// `name=value (domain)`, with no more than the first bytes of the value.
pub open spec fn row(cookie: JsonView) -> Seq<char> {
    headless::text_or(cookie, "name"@, "?"@) + "="@ + text::shortened(
        headless::text_or(cookie, "value"@, ""@),
        20,
    ) + " ("@ + headless::text_or(cookie, "domain"@, ""@) + ")"@
}

fn row_of(cookie: &Json) -> (r: String)
    ensures
        r@ == row(cookie@),
{
    str_or(cookie, "name", "?").concat("=").concat(
        shorten(str_or(cookie, "value", "").as_str(), 20).as_str(),
    ).concat(" (").concat(str_or(cookie, "domain", "").as_str()).concat(")")
}

/// The cookies in an answer: what stands there, or an empty list.
pub open spec fn cookies_in(answer: JsonView) -> JsonView {
    match answer.get("cookies"@) {
        Some(c) => c,
        None => JsonView::array(),
    }
}

/// What a listing prints.
pub fn list(answer: &Json) -> (r: CommandOutput)
    ensures
        r@ == ({
            let found = headless::list_at(answer@, "cookies"@);
            OutputView::List(
                cookies_in(answer@),
                Seq::new(found.len(), |i: int| row(found[i])),
                Seq::empty(),
            )
        }),
{
    let cookies = entries_at(answer, "cookies");
    let mut rows: Vec<String> = Vec::new();
    for i in 0..cookies.len()
        invariant
            rows@.len() == i,
            forall|j: int| 0 <= j < i ==> (#[trigger] rows@[j])@ == row(cookies@[j]@),
    {
        rows.push(row_of(&cookies[i]));
    }
    let items = match answer.get("cookies") {
        Some(c) => c.copy(),
        None => Json::array(),
    };
    let summary = String::new();
    proof {
        let found = headless::list_at(answer@, "cookies"@);
        text::lemma_texts_index(rows@);
        assert(text::texts(rows@) =~= Seq::new(found.len(), |i: int| row(found[i])));
        assert(summary@ =~= Seq::empty());
    }
    CommandOutput::List { items, human_lines: rows, summary }
}

/// Whether the cookie at a position is the first of its name.
pub open spec fn is_first_named(cookies: Seq<JsonView>, name: Seq<char>, at: int) -> bool {
    headless::is_first(cookies, |c: JsonView| c.get_str("name"@) == Some(name), at)
}

/// The cookie of a name: its value, and the JSON that describes it.
pub fn get(answer: &Json, name: &str) -> (r: Result<CommandOutput, Failure>)
    ensures
        ({
            let found = headless::list_at(answer@, "cookies"@);
            match headless::outcome(r) {
                Ok(o) => exists|i: int| #[trigger]
                    is_first_named(found, name@, i) && o == OutputView::Content(
                        headless::text_or(found[i], "value"@, ""@),
                        found[i],
                        None,
                    ),
                Err(e) => (forall|i: int|
                    0 <= i < found.len() ==> (#[trigger] found[i]).get_str("name"@) != Some(
                        name@,
                    )) && e == FailureView::Plain("Cookie '"@ + name@ + "' not found"@),
            }
        }),
{
    let cookies = entries_at(answer, "cookies");
    let ghost found = headless::list_at(answer@, "cookies"@);
    for i in 0..cookies.len()
        invariant
            found == model::each(cookies@),
            found == headless::list_at(answer@, "cookies"@),
            forall|k: int|
                0 <= k < i ==> (#[trigger] found[k]).get_str("name"@) != Some(name@),
    {
        assert(found[i as int] == cookies@[i as int]@);
        if field_is(&cookies[i], "name", name) {
            assert(is_first_named(found, name@, i as int));
            let r = CommandOutput::Content {
                stdout: str_or(&cookies[i], "value", ""),
                json: cookies[i].copy(),
                note: None,
            };
            return Ok(r);
        }
    }
    Err(Failure::Plain("Cookie '".to_owned().concat(name).concat("' not found")))
}

/// What sets a cookie.
pub fn set_params(url: &str, name: &str, value: &str, httponly: bool, secure: bool) -> (r: Json)
    ensures
        r@ == JsonView::object().with("url"@, JsonView::Str(url@)).with(
            "name"@,
            JsonView::Str(name@),
        ).with("value"@, JsonView::Str(value@)).with("httpOnly"@, JsonView::Bool(httponly)).with(
            "secure"@,
            JsonView::Bool(secure),
        ),
{
    Json::object().with("url", Json::string(url)).with("name", Json::string(name)).with(
        "value",
        Json::string(value),
    ).with("httpOnly", Json::Bool(httponly)).with("secure", Json::Bool(secure))
}

/// What deletes a cookie.
pub fn delete_params(url: &str, name: &str) -> (r: Json)
    ensures
        r@ == JsonView::object().with("url"@, JsonView::Str(url@)).with(
            "name"@,
            JsonView::Str(name@),
        ),
{
    Json::object().with("url", Json::string(url)).with("name", Json::string(name))
}

/// A listing shows every cookie of the answer in its order, each on a line with its name, the first
/// bytes of its value and its domain.
pub proof fn law_cookies_are_shown(answer: Json, found: Seq<JsonView>, r: CommandOutput)
    requires
        answer@.get("cookies"@) == Some(JsonView::Array(found)),
        call_ensures(list, (&answer,), r),
    ensures
        r matches CommandOutput::List { items, human_lines, summary } && {
            &&& items@ == JsonView::Array(found)
            &&& human_lines@.len() == found.len()
            &&& forall|i: int|
                #![trigger human_lines@[i]]
                0 <= i < found.len() ==> {
                    let c = found[i];
                    (c.get("name"@) matches Some(JsonView::Str(n)) ==> (c.get(
                        "value"@,
                    ) matches Some(JsonView::Str(v)) ==> (c.get("domain"@) matches Some(
                        JsonView::Str(d),
                    ) ==> human_lines@[i]@ == n + "="@ + text::shortened(v, 20) + " ("@ + d + ")"@)))
                }
        },
{
    if let CommandOutput::List { items, human_lines, summary } = r {
        text::lemma_texts_index(human_lines@);
        assert forall|i: int| #![trigger human_lines@[i]] 0 <= i < found.len() implies human_lines@[i]@
            == row(found[i]) by {
            assert(text::texts(human_lines@)[i] == human_lines@[i]@);
        }
    }
}

/// The cookie of a name is the first of that name: its value is what is printed, and its description is
/// the JSON. Where there is none of that name it fails, and tells the name.
pub proof fn law_a_cookie_is_found_by_name(
    answer: Json,
    found: Seq<JsonView>,
    name: &str,
    r: Result<CommandOutput, Failure>,
)
    requires
        answer@.get("cookies"@) == Some(JsonView::Array(found)),
        call_ensures(get, (&answer, name), r),
    ensures
        ({
            let named = |c: JsonView| c.get("name"@) == Some(JsonView::Str(name@));
            &&& r is Ok <==> exists|i: int| 0 <= i < found.len() && named(#[trigger] found[i])
            &&& r matches Ok(o) ==> exists|i: int|
                {
                    &&& 0 <= i < found.len()
                    &&& named(#[trigger] found[i])
                    &&& forall|k: int| 0 <= k < i ==> !named(#[trigger] found[k])
                    &&& o matches CommandOutput::Content { stdout, json, note } && json@ == found[i]
                        && (found[i].get("value"@) matches Some(JsonView::Str(v)) ==> stdout@ == v)
                }
            &&& r matches Err(e) ==> (e matches Failure::Plain(m) && text::holds(m@, name@))
        }),
{
    let named = |c: JsonView| c.get("name"@) == Some(JsonView::Str(name@));
    let pick = |c: JsonView| c.get_str("name"@) == Some(name@);
    assert forall|c: JsonView| named(c) <==> #[trigger] pick(c) by {
    }
    text::lemma_part("Cookie '"@, name@, "' not found"@);
    if let Ok(o) = r {
        let i = choose|i: int| #[trigger]
            is_first_named(found, name@, i) && o@ == OutputView::Content(
                headless::text_or(found[i], "value"@, ""@),
                found[i],
                None,
            );
        assert(pick(found[i]));
        assert(named(found[i]));
        assert forall|k: int| 0 <= k < i implies !named(#[trigger] found[k]) by {
            assert(!pick(found[k]));
        }
    } else {
        assert forall|i: int| 0 <= i < found.len() implies !named(#[trigger] found[i]) by {
            assert(found[i].get_str("name"@) != Some(name@));
        }
    }
}

/// The browser is asked about the address, and to set or delete the cookie that is named, with each
/// thing under its name.
pub proof fn law_the_browser_is_asked_about_cookies(
    url: &str,
    name: &str,
    value: &str,
    httponly: bool,
    secure: bool,
    listing: Json,
    setting: Json,
    deleting: Json,
)
    requires
        call_ensures(list_params, (url,), listing),
        call_ensures(set_params, (url, name, value, httponly, secure), setting),
        call_ensures(delete_params, (url, name), deleting),
    ensures
        listing@.get("urls"@) matches Some(JsonView::Array(urls)) && urls.len() == 1 && urls[0]
            == JsonView::Str(url@),
        setting@.get("url"@) == Some(JsonView::Str(url@)),
        setting@.get("name"@) == Some(JsonView::Str(name@)),
        setting@.get("value"@) == Some(JsonView::Str(value@)),
        setting@.get("httpOnly"@) == Some(JsonView::Bool(httponly)),
        setting@.get("secure"@) == Some(JsonView::Bool(secure)),
        deleting@.get("url"@) == Some(JsonView::Str(url@)),
        deleting@.get("name"@) == Some(JsonView::Str(name@)),
{
    reveal_strlit("url");
    reveal_strlit("name");
    reveal_strlit("value");
    reveal_strlit("httpOnly");
    reveal_strlit("secure");
    assert("url"@.len() == 3);
    assert("name"@.len() == 4);
    assert("value"@.len() == 5);
    assert("httpOnly"@.len() == 8);
    assert("secure"@.len() == 6);
}

} // verus!
