//! What elements of a page hold.
use crate::commands::dom::DomCommand;
use crate::headless;
use crate::headless::{message, parse_bridge_response, Failure, FailureView};
use crate::json::{Json, JsonView};
use crate::output::{CommandOutput, OutputView};
use vstd::prelude::*;

verus! {

/// A message about an element.
pub open spec fn about(kind: Seq<char>, selector: Seq<char>) -> JsonView {
    headless::plain_message(kind).with("selector"@, JsonView::Str(selector))
}

/// The message for a command.
pub open spec fn message_of(command: DomCommand) -> JsonView {
    match command {
        DomCommand::SetHtml { selector, value } => about("setHtml"@, selector@).with(
            "value"@,
            JsonView::Str(value@),
        ),
        DomCommand::SetText { selector, value } => about("setText"@, selector@).with(
            "value"@,
            JsonView::Str(value@),
        ),
        DomCommand::SetAttr { selector, attr, value } => about("setAttr"@, selector@).with(
            "attr"@,
            JsonView::Str(attr@),
        ).with("value"@, JsonView::Str(value@)),
        DomCommand::GetHtml { selector } => about("getHtml"@, selector@),
        DomCommand::GetText { selector } => about("getText"@, selector@),
        DomCommand::GetAttr { selector, attr } => about("getAttr"@, selector@).with(
            "attr"@,
            JsonView::Str(attr@),
        ),
    }
}

fn about_element(kind: &str, selector: &String) -> (r: Json)
    ensures
        r@ == about(kind@, selector@),
{
    message(kind).with("selector", Json::string(selector.as_str()))
}

/// The message for a command.
pub fn request(command: &DomCommand) -> (r: Json)
    ensures
        r@ == message_of(*command),
{
    match command {
        DomCommand::SetHtml { selector, value } => about_element("setHtml", selector).with(
            "value",
            Json::string(value.as_str()),
        ),
        DomCommand::SetText { selector, value } => about_element("setText", selector).with(
            "value",
            Json::string(value.as_str()),
        ),
        DomCommand::SetAttr { selector, attr, value } => about_element("setAttr", selector).with(
            "attr",
            Json::string(attr.as_str()),
        ).with("value", Json::string(value.as_str())),
        DomCommand::GetHtml { selector } => about_element("getHtml", selector),
        DomCommand::GetText { selector } => about_element("getText", selector),
        DomCommand::GetAttr { selector, attr } => about_element("getAttr", selector).with(
            "attr",
            Json::string(attr.as_str()),
        ),
    }
}

/// What the page's answer comes to: the value that was read, or that all went well.
pub open spec fn answered(answer: JsonView) -> Result<OutputView, FailureView> {
    match headless::bridge_answer(answer) {
        Err(e) => Err(e),
        Ok(data) => Ok(
            match data.get_str("value"@) {
                Some(v) => OutputView::Content(
                    v,
                    JsonView::object().with("success"@, JsonView::Bool(true)).with(
                        "value"@,
                        JsonView::Str(v),
                    ),
                    None,
                ),
                None => OutputView::Message("OK"@),
            },
        ),
    }
}

/// What the page's answer comes to.
pub fn finish(answer: Json) -> (r: Result<CommandOutput, Failure>)
    ensures
        headless::outcome(r) == answered(answer@),
{
    match parse_bridge_response(answer) {
        Err(e) => Err(e),
        Ok(data) => match data.get_str("value") {
            Some(v) => {
                let json = Json::object().with("success", Json::Bool(true)).with(
                    "value",
                    Json::string(v),
                );
                Ok(CommandOutput::Content { stdout: v.to_owned(), json, note: None })
            },
            None => Ok(CommandOutput::Message("OK".to_owned())),
        },
    }
}

/// The page is asked for the very thing that the command asks: its kind, the element, and the
/// attribute and the value where there are any.
pub proof fn law_elements_are_asked_about(command: DomCommand, r: Json)
    requires
        call_ensures(request, (&command,), r),
    ensures
        ({
            let asks = |kind: Seq<char>, selector: String|
                r@.get("type"@) == Some(JsonView::Str(kind)) && r@.get("selector"@) == Some(
                    JsonView::Str(selector@),
                );
            let with = |key: Seq<char>, value: String|
                r@.get(key) == Some(JsonView::Str(value@));
            match command {
                DomCommand::SetHtml { selector, value } => asks("setHtml"@, selector) && with(
                    "value"@,
                    value,
                ),
                DomCommand::SetText { selector, value } => asks("setText"@, selector) && with(
                    "value"@,
                    value,
                ),
                DomCommand::SetAttr { selector, attr, value } => asks("setAttr"@, selector) && with(
                    "value"@,
                    value,
                ) && with("attr"@, attr),
                DomCommand::GetHtml { selector } => asks("getHtml"@, selector),
                DomCommand::GetText { selector } => asks("getText"@, selector),
                DomCommand::GetAttr { selector, attr } => asks("getAttr"@, selector) && with(
                    "attr"@,
                    attr,
                ),
            }
        }),
{
    reveal_strlit("type");
    reveal_strlit("selector");
    reveal_strlit("value");
    reveal_strlit("attr");
    assert("type"@.len() == 4);
    assert("selector"@.len() == 8);
    assert("value"@.len() == 5);
    assert("attr"@.len() == 4);
    assert("type"@[0] != "attr"@[0]);
}

/// What the page reads out is printed as it is, in JSON too; without a value all went well, and a
/// failure is one.
pub proof fn law_values_are_read_out(answer: Json, r: Result<CommandOutput, Failure>)
    requires
        call_ensures(finish, (answer,), r),
    ensures
        r is Err <==> answer@.get("success"@) == Some(JsonView::Bool(false)),
        r matches Ok(o) ==> match answer@.get("value"@) {
            Some(JsonView::Str(v)) => o matches CommandOutput::Content { stdout, json, note }
                && stdout@ == v && json@.get("value"@) == Some(JsonView::Str(v)) && json@.get(
                "success"@,
            ) == Some(JsonView::Bool(true)),
            _ => o is Message,
        },
{
    reveal_strlit("success");
    reveal_strlit("value");
    assert("success"@.len() == 7);
    assert("value"@.len() == 5);
}

} // verus!
