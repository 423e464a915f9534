//! Scripts in a page.
use crate::json;
use crate::json::{Json, JsonView};
use crate::output::{CommandOutput, OutputView};
use crate::text;
use vstd::prelude::*;
use vstd::string::StringExecFns;

verus! {

/// The expression that a script is run as.
pub fn expression(code: &str) -> (r: String)
    ensures
        r@ == "("@ + code@ + ")"@,
{
    "(".to_owned().concat(code).concat(")")
}

/// What a script's value prints: its text as JSON.
pub fn value_output(value: &Json) -> (r: CommandOutput)
    ensures
        r@ == OutputView::Data(
            JsonView::object().with("success"@, JsonView::Bool(true)).with(
                "result"@,
                JsonView::Str(json::written(value@)),
            ),
            json::written(value@),
        ),
{
    let human = value.to_text();
    let json = Json::object().with("success", Json::Bool(true)).with(
        "result",
        Json::string(human.as_str()),
    );
    CommandOutput::Data { json, human }
}

/// What a script that failed prints.
pub fn error_json(reason: &str) -> (r: Json)
    ensures
        r@ == JsonView::object().with("success"@, JsonView::Bool(false)).with(
            "error"@,
            JsonView::Str(reason@),
        ),
{
    Json::object().with("success", Json::Bool(false)).with("error", Json::string(reason))
}

/// A script is run as it is, in brackets; its value is printed as it is written in JSON, and a failure
/// with its reason.
pub proof fn law_scripts(code: &str, run_as: String, value: Json, r: CommandOutput, reason: &str, failed: Json)
    requires
        call_ensures(expression, (code,), run_as),
        call_ensures(value_output, (&value,), r),
        call_ensures(error_json, (reason,), failed),
    ensures
        run_as@.len() == code@.len() + 2,
        run_as@.subrange(1, run_as@.len() - 1) == code@,
        run_as@[0] == '(' && run_as@.last() == ')',
        r matches CommandOutput::Data { json, human } && {
            &&& human@ == json::written(value@)
            &&& json@.get("result"@) == Some(JsonView::Str(human@))
            &&& json@.get("success"@) == Some(JsonView::Bool(true))
        },
        failed@.get("success"@) == Some(JsonView::Bool(false)),
        failed@.get("error"@) == Some(JsonView::Str(reason@)),
{
    reveal_strlit("success");
    reveal_strlit("result");
    reveal_strlit("error");
    assert("success"@.len() == 7);
    assert("result"@.len() == 6);
    assert("error"@.len() == 5);
    reveal_strlit("(");
    reveal_strlit(")");
    assert(run_as@.subrange(1, run_as@.len() - 1) =~= code@);
}

} // verus!
