//! Waiting for a page.
use crate::headless;
use crate::headless::{message, parse_bridge_response, Failure, FailureView};
use crate::json;
use crate::json::{Json, JsonView};
use crate::model;
use crate::output::{CommandOutput, OutputView};
use vstd::prelude::*;

verus! {

/// How long a wait for a navigation is at most, in milliseconds.
pub fn navigation_limit(timeout_ms: u64) -> (r: u64)
    ensures
        r == if timeout_ms < 30000 {
            timeout_ms
        } else {
            30000
        },
{
    if timeout_ms < 30000 {
        timeout_ms
    } else {
        30000
    }
}

/// What a wait for a navigation comes to.
pub fn navigated(loaded: bool) -> (r: Result<CommandOutput, Failure>)
    ensures
        headless::outcome(r) == if loaded {
            Ok(OutputView::Message("Navigation complete"@))
        } else {
            Err(FailureView::Timeout("Navigation timeout"@))
        },
{
    if loaded {
        Ok(CommandOutput::Message("Navigation complete".to_owned()))
    } else {
        Err(Failure::Timeout("Navigation timeout".to_owned()))
    }
}

/// The message that has the page wait for an element or a text.
pub fn request(selector: Option<&str>, text: Option<&str>, timeout_ms: u64) -> (r: Json)
    ensures
        r@ == headless::plain_message("wait"@).with(
            "selector"@,
            json::text_json(model::maybe(selector)),
        ).with("text"@, json::text_json(model::maybe(text))).with(
            "timeout_ms"@,
            JsonView::number(timeout_ms),
        ),
{
    message("wait").with("selector", Json::text_or_null(selector)).with(
        "text",
        Json::text_or_null(text),
    ).with("timeout_ms", Json::number(timeout_ms))
}

/// What the page's answer comes to.
pub fn finish(answer: Json) -> (r: Result<CommandOutput, Failure>)
    ensures
        headless::outcome(r) == (match headless::bridge_answer(answer@) {
            Ok(_) => Ok(OutputView::Message("OK"@)),
            Err(e) => Err(e),
        }),
{
    match parse_bridge_response(answer) {
        Ok(_) => Ok(CommandOutput::Message("OK".to_owned())),
        Err(e) => Err(e),
    }
}

/// A wait for a navigation is no longer than asked for and no longer than half a minute; it fails
/// where the page did not load. The page is asked to wait for what is asked for, and its failure is
/// handed on.
pub proof fn law_waiting(
    timeout_ms: u64,
    limit: u64,
    loaded: bool,
    r: Result<CommandOutput, Failure>,
    selector: Option<&str>,
    text: Option<&str>,
    asked: Json,
    answer: Json,
    done: Result<CommandOutput, Failure>,
)
    requires
        call_ensures(navigation_limit, (timeout_ms,), limit),
        call_ensures(navigated, (loaded,), r),
        call_ensures(request, (selector, text, timeout_ms), asked),
        call_ensures(finish, (answer,), done),
    ensures
        limit <= timeout_ms && limit <= 30000,
        limit == timeout_ms || limit == 30000,
        r is Ok <==> loaded,
        r matches Err(e) ==> e is Timeout,
        ({
            let said = |t: Option<&str>|
                Some(
                    match t {
                        Some(s) => JsonView::Str(s@),
                        None => JsonView::Null,
                    },
                );
            &&& asked@.get("type"@) == Some(JsonView::Str("wait"@))
            &&& asked@.get("selector"@) == said(selector)
            &&& asked@.get("text"@) == said(text)
            &&& asked@.get("timeout_ms"@) == Some(
                JsonView::Num(json::NumberView::Unsigned(timeout_ms)),
            )
        }),
        done is Err <==> answer@.get("success"@) == Some(JsonView::Bool(false)),
{
    reveal_strlit("type");
    reveal_strlit("selector");
    reveal_strlit("text");
    reveal_strlit("timeout_ms");
    assert("type"@.len() == 4);
    assert("selector"@.len() == 8);
    assert("text"@.len() == 4);
    assert("timeout_ms"@.len() == 10);
    assert("type"@[1] != "text"@[1]);
}

/// What was waited for and came is answered with one word.
pub proof fn law_what_came_is_told(answer: Json, done: Result<CommandOutput, Failure>)
    requires
        call_ensures(finish, (answer,), done),
    ensures
        done matches Ok(o) ==> (o matches CommandOutput::Message(m) && m@ == "OK"@),
{
}

} // verus!
