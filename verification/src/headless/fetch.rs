//! Requests with the page's own cookies.
use crate::headless;
use crate::headless::str_or;
use crate::json;
use crate::json::{Json, JsonView};
use crate::model;
use crate::output::{CommandOutput, OutputView};
use crate::text;
use crate::text::dec;
use vstd::prelude::*;
use vstd::string::StringExecFns;

verus! {

/// A text as a script writes it.
pub open spec fn literal(t: Seq<char>) -> Seq<char> {
    json::written(JsonView::Str(t))
}

/// The script that makes a request.
pub open spec fn script(url: Seq<char>, method: Seq<char>, body: Option<Seq<char>>) -> Seq<char> {
    "fetch("@ + literal(url) + ", {method: "@ + literal(method)
        + ", credentials: \"include\", headers: {\"Content-Type\": \"application/json\"}, "@ + (
    match body {
        Some(b) => "body: "@ + literal(b) + ", "@,
        None => ""@,
    }) + "}).then(r => r.text().then(body => ({status: r.status, body})))"@
}

/// The script that makes a request.
pub fn request_script(url: &str, method: &str, body: Option<&str>) -> (r: String)
    ensures
        r@ == script(url@, method@, model::maybe(body)),
{
    let body_part = match body {
        Some(b) => "body: ".to_owned().concat(Json::string(b).to_text().as_str()).concat(", "),
        None => "".to_owned(),
    };
    "fetch(".to_owned().concat(Json::string(url).to_text().as_str()).concat(
        ", {method: ",
    ).concat(Json::string(method).to_text().as_str()).concat(
        ", credentials: \"include\", headers: {\"Content-Type\": \"application/json\"}, ",
    ).concat(body_part.as_str()).concat(
        "}).then(r => r.text().then(body => ({status: r.status, body})))",
    )
}

/// The status in an answer, 0 where there is none.
pub open spec fn status_of(answer: JsonView) -> u64 {
    match answer.get("status"@) {
        Some(s) => match s.as_u64() {
            Some(n) => n,
            None => 0,
        },
        None => 0,
    }
}

/// What a request prints: the body and under it the status.
pub fn finish(answer: &Json) -> (r: CommandOutput)
    ensures
        r@ == OutputView::Content(
            headless::text_or(answer@, "body"@, ""@) + "\nHTTP "@ + text::decimal(
                status_of(answer@) as nat,
            ),
            JsonView::object().with("success"@, JsonView::Bool(true)).with(
                "status"@,
                answer@.get_or_null("status"@),
            ).with("body"@, answer@.get_or_null("body"@)),
            None,
        ),
{
    let status: u64 = match answer.get("status") {
        Some(s) => match s.as_u64() {
            Some(n) => n,
            None => 0,
        },
        None => 0,
    };
    let json = Json::object().with("success", Json::Bool(true)).with(
        "status",
        answer.get_or_null("status"),
    ).with("body", answer.get_or_null("body"));
    let stdout = str_or(answer, "body", "").concat("\nHTTP ").concat(dec(status).as_str());
    CommandOutput::Content { stdout, json, note: None }
}

/// The script makes the request that is asked for: its address, method and body stand in it, written
/// as a script writes texts.
pub proof fn law_requests_are_made(url: &str, method: &str, body: Option<&str>, r: String)
    requires
        call_ensures(request_script, (url, method, body), r),
    ensures
        text::has_prefix(
            r@,
            "fetch("@ + json::written(JsonView::Str(url@)) + ", {method: "@ + json::written(
                JsonView::Str(method@),
            ),
        ),
        body matches Some(b) ==> text::holds(
            r@,
            "body: "@ + json::written(JsonView::Str(b@)) + ", "@,
        ),
{
    let u = json::written(JsonView::Str(url@));
    let m = json::written(JsonView::Str(method@));
    let front = "fetch("@ + u + ", {method: "@ + m;
    let mid =
        ", credentials: \"include\", headers: {\"Content-Type\": \"application/json\"}, "@;
    let end = "}).then(r => r.text().then(body => ({status: r.status, body})))"@;
    let part = match model::maybe(body) {
        Some(b) => "body: "@ + literal(b) + ", "@,
        None => ""@,
    };
    assert(r@ =~= front + (mid + part + end));
    text::lemma_front(front, mid + part + end);
    assert(r@ =~= (front + mid) + part + end);
    text::lemma_part(front + mid, part, end);
}

/// What a request prints is the body of the answer and, under it, its status.
pub proof fn law_answers_are_printed(answer: Json, r: CommandOutput)
    requires
        call_ensures(finish, (&answer,), r),
    ensures
        r matches CommandOutput::Content { stdout, json, note } && {
            let or_null = |key: Seq<char>|
                Some(
                    match answer@.get(key) {
                        Some(v) => v,
                        None => JsonView::Null,
                    },
                );
            &&& json@.get("success"@) == Some(JsonView::Bool(true))
            &&& json@.get("status"@) == or_null("status"@)
            &&& json@.get("body"@) == or_null("body"@)
            &&& answer@.get("body"@) matches Some(JsonView::Str(b)) ==> text::has_prefix(stdout@, b)
            &&& answer@.get("status"@) matches Some(
                JsonView::Num(json::NumberView::Unsigned(n)),
            ) ==> text::has_suffix(stdout@, "\nHTTP "@ + text::decimal(n as nat))
            &&& note is None
        },
{
    reveal_strlit("success");
    reveal_strlit("status");
    reveal_strlit("body");
    assert("success"@.len() == 7);
    assert("status"@.len() == 6);
    assert("body"@.len() == 4);
    if let CommandOutput::Content { stdout, json, note } = r {
        let b = headless::text_or(answer@, "body"@, ""@);
        let end = "\nHTTP "@ + text::decimal(status_of(answer@) as nat);
        assert(stdout@ =~= b + end);
        text::lemma_front(b, end);
        text::lemma_back(b, end);
    }
}

} // verus!
