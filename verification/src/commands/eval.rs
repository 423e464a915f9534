//! `eval`: JavaScript in the page.
use crate::error;
use crate::error::{ErrorView, WebPilotError};
use crate::json::{Json, JsonView};
use crate::model;
use crate::output::{CommandOutput, OutputView};
use crate::protocol;
use crate::protocol::{lift_error, Reply};
use vstd::prelude::*;

verus! {

/// The arguments of `eval`.
#[derive(Debug, PartialEq, Eq)]
pub struct EvalArgs {
    pub code: String,
}

/// The response to `eval`.
pub struct EvalData {
    pub success: bool,
    pub result: Option<String>,
    pub error: Option<WebPilotError>,
}

/// What `eval` prints: the result, `undefined` where there is none.
pub open spec fn run_outcome(reply: Reply<EvalData>) -> Result<OutputView, ErrorView> {
    match reply {
        Reply::Data(d) => if d.success {
            let shown = match d.result {
                Some(s) => s@,
                None => "undefined"@,
            };
            Ok(
                OutputView::Content(
                    shown,
                    JsonView::object().with("success"@, JsonView::Bool(true)).with(
                        "result"@,
                        JsonView::Str(shown),
                    ),
                    None,
                ),
            )
        } else {
            Err(protocol::failure(model::maybe(d.error)))
        },
        _ => Err(protocol::no_data(reply)),
    }
}

/// What `eval` prints.
pub fn run(reply: Reply<EvalData>) -> (r: Result<CommandOutput, WebPilotError>)
    ensures
        error::outcome(r) == run_outcome(reply),
{
    match reply.data() {
        Ok(d) => {
            let stdout = match d.result {
                Some(s) => s,
                None => "undefined".to_owned(),
            };
            let json = Json::object().with("success", Json::Bool(true)).with(
                "result",
                Json::string(stdout.as_str()),
            );
            lift_error(d.success, d.error, CommandOutput::Content { stdout, json, note: None })
        },
        Err(e) => Err(e),
    }
}

/// A script that succeeded prints its result, or that there is none, and tells it in JSON too; one
/// that did not is an error.
pub proof fn law_results_are_printed(reply: Reply<EvalData>, r: Result<CommandOutput, WebPilotError>)
    requires
        call_ensures(run, (reply,), r),
    ensures
        r is Ok <==> (reply matches Reply::Data(d) && d.success),
        r matches Ok(o) ==> o matches CommandOutput::Content { stdout, json, note } && {
            let d = reply->Data_0;
            &&& note is None
            &&& d.result is Some ==> stdout@ == d.result->0@
            &&& d.result is None ==> stdout@ == "undefined"@
            &&& json@.get("result"@) == Some(JsonView::Str(stdout@))
            &&& json@.get("success"@) == Some(JsonView::Bool(true))
        },
        reply matches Reply::Error(e) ==> r->Err_0@ == e@,
        reply matches Reply::Data(d) ==> (!d.success && d.error is Some ==> r->Err_0@
            == d.error->0@),
{
    reveal_strlit("success");
    reveal_strlit("result");
    assert("success"@.len() == 7);
    assert("result"@.len() == 6);
}

} // verus!
