//! `wait`: until a condition holds.
use crate::error;
use crate::error::WebPilotError;
use crate::fields;
use crate::fields::{missing_field, type_error, variant_error};
use crate::json;
use crate::json::{Json, JsonView};
use crate::output::{CommandOutput, OutputView};
use crate::protocol;
use crate::protocol::{done, Done, Reply};
use crate::text::same;
use vstd::prelude::*;

verus! {

broadcast use json::group_json_views;

/// What is waited for.
#[derive(Debug, PartialEq, Eq)]
pub enum WaitCondition {
    /// An element that a selector finds.
    Selector { value: String },
    /// A text on the page.
    Text { value: String },
    /// The next page.
    Navigation,
    /// A network at rest.
    Idle,
}

/// What a condition is.
pub enum ConditionView {
    Selector(Seq<char>),
    Text(Seq<char>),
    Navigation,
    Idle,
}

impl View for WaitCondition {
    type V = ConditionView;

    open spec fn view(&self) -> ConditionView {
        match self {
            WaitCondition::Selector { value } => ConditionView::Selector(value@),
            WaitCondition::Text { value } => ConditionView::Text(value@),
            WaitCondition::Navigation => ConditionView::Navigation,
            WaitCondition::Idle => ConditionView::Idle,
        }
    }
}

/// The names of what can be waited for.
pub open spec fn condition_names() -> Seq<Seq<char>> {
    seq!["selector"@, "text"@, "navigation"@, "idle"@]
}

/// The text in the field `value`, or what is wrong with it.
pub open spec fn sought(args: JsonView) -> Result<Seq<char>, Seq<char>> {
    match args.get("value"@) {
        None => Err(fields::missing("value"@)),
        Some(v) => match v.as_str() {
            Some(t) => Ok(t),
            None => Err(fields::wrong_type(v, "a string"@)),
        },
    }
}

/// The condition that the fields `until` and `value` describe, or what is wrong with them. Only a
/// selector and a text have a value.
pub open spec fn condition_of(args: JsonView) -> Result<ConditionView, Seq<char>> {
    match args.get("until"@) {
        None => Err(fields::missing("until"@)),
        Some(v) => match v.as_str() {
            None => Err(fields::wrong_type(v, "variant identifier"@)),
            Some(until) => if until == "selector"@ {
                match sought(args) {
                    Ok(value) => Ok(ConditionView::Selector(value)),
                    Err(e) => Err(e),
                }
            } else if until == "text"@ {
                match sought(args) {
                    Ok(value) => Ok(ConditionView::Text(value)),
                    Err(e) => Err(e),
                }
            } else if until == "navigation"@ {
                Ok(ConditionView::Navigation)
            } else if until == "idle"@ {
                Ok(ConditionView::Idle)
            } else {
                Err(fields::unknown_variant(until, condition_names()))
            },
        },
    }
}

fn sought_text(args: &Json) -> (r: Result<String, String>)
    ensures
        match sought(args@) {
            Ok(t) => r is Ok && r->Ok_0@ == t,
            Err(e) => r is Err && r->Err_0@ == e,
        },
{
    match args.get("value") {
        None => Err(missing_field("value")),
        Some(v) => match v.as_str() {
            Some(t) => Ok(t.to_owned()),
            None => Err(type_error(v, "a string")),
        },
    }
}

/// The model of what reading a condition gives.
pub open spec fn read_outcome(r: Result<WaitCondition, String>) -> Result<
    ConditionView,
    Seq<char>,
> {
    match r {
        Ok(c) => Ok(c@),
        Err(e) => Err(e@),
    }
}

/// A condition as the wire has it: no value where the condition has none.
pub open spec fn wire(condition: ConditionView) -> JsonView {
    match condition {
        ConditionView::Selector(value) => JsonView::object().with(
            "until"@,
            JsonView::Str("selector"@),
        ).with("value"@, JsonView::Str(value)),
        ConditionView::Text(value) => JsonView::object().with(
            "until"@,
            JsonView::Str("text"@),
        ).with("value"@, JsonView::Str(value)),
        ConditionView::Navigation => JsonView::object().with(
            "until"@,
            JsonView::Str("navigation"@),
        ),
        ConditionView::Idle => JsonView::object().with("until"@, JsonView::Str("idle"@)),
    }
}

impl WaitCondition {
    /// The condition that the fields `until` and `value` describe.
    pub fn read(args: &Json) -> (r: Result<WaitCondition, String>)
        ensures
            read_outcome(r) == condition_of(args@),
    {
        let held = match args.get("until") {
            Some(v) => v,
            None => {
                return Err(missing_field("until"));
            },
        };
        let until = match held.as_str() {
            Some(t) => t,
            None => {
                return Err(type_error(held, "variant identifier"));
            },
        };
        if same(until, "selector") {
            match sought_text(args) {
                Ok(value) => Ok(WaitCondition::Selector { value }),
                Err(e) => Err(e),
            }
        } else if same(until, "text") {
            match sought_text(args) {
                Ok(value) => Ok(WaitCondition::Text { value }),
                Err(e) => Err(e),
            }
        } else if same(until, "navigation") {
            Ok(WaitCondition::Navigation)
        } else if same(until, "idle") {
            Ok(WaitCondition::Idle)
        } else {
            let mut names: Vec<&str> = Vec::new();
            names.push("selector");
            names.push("text");
            names.push("navigation");
            names.push("idle");
            assert(fields::names_of(names@) =~= condition_names());
            Err(variant_error(until, &names))
        }
    }

    /// The condition as the wire has it.
    pub fn to_json(&self) -> (r: Json)
        ensures
            r@ == wire(self@),
    {
        match self {
            WaitCondition::Selector { value } => Json::object().with(
                "until",
                Json::string("selector"),
            ).with("value", Json::string(value.as_str())),
            WaitCondition::Text { value } => Json::object().with(
                "until",
                Json::string("text"),
            ).with("value", Json::string(value.as_str())),
            WaitCondition::Navigation => Json::object().with("until", Json::string("navigation")),
            WaitCondition::Idle => Json::object().with("until", Json::string("idle")),
        }
    }
}

/// What is written on the wire is read back as the same condition.
pub proof fn law_conditions_read_back(condition: ConditionView)
    ensures
        condition_of(wire(condition)) == Ok::<ConditionView, Seq<char>>(condition),
{
    reveal_strlit("until");
    reveal_strlit("value");
    reveal_strlit("selector");
    reveal_strlit("text");
    reveal_strlit("navigation");
    reveal_strlit("idle");
    assert("until"@[0] == 'u' && "value"@[0] == 'v');
    assert("text"@[0] == 't' && "idle"@[0] == 'i');
    assert("selector"@.len() == 8 && "text"@.len() == 4 && "navigation"@.len() == 10);
}

/// The arguments of `wait`: what is waited for, and the seconds it may take.
#[derive(Debug, PartialEq, Eq)]
pub struct WaitArgs {
    pub condition: WaitCondition,
    pub timeout: u64,
}

/// The milliseconds that a number of seconds comes to, at most what the wire can carry.
pub fn timeout_ms(secs: u64) -> (r: u64)
    ensures
        r == if secs * 1000 > u64::MAX {
            u64::MAX as int
        } else {
            secs * 1000
        },
{
    match secs.checked_mul(1000) {
        Some(ms) => ms,
        None => u64::MAX,
    }
}

/// What `wait` prints.
pub fn dispatch(reply: Reply<Done>) -> (r: Result<CommandOutput, WebPilotError>)
    ensures
        error::outcome(r) == protocol::done_outcome(reply, OutputView::Message("OK"@)),
{
    done(reply, "OK".to_owned())
}

/// A condition that is read is the one that the arguments name: what `until` says, with the text
/// under `value` where it takes one. Nothing else can be waited for.
pub proof fn law_conditions_are_as_named(args: Json, r: Result<WaitCondition, String>)
    requires
        call_ensures(WaitCondition::read, (&args,), r),
    ensures
        r matches Ok(c) ==> match c {
            WaitCondition::Selector { value } => args@.get("until"@) == Some(
                JsonView::Str("selector"@),
            ) && args@.get("value"@) == Some(JsonView::Str(value@)),
            WaitCondition::Text { value } => args@.get("until"@) == Some(JsonView::Str("text"@))
                && args@.get("value"@) == Some(JsonView::Str(value@)),
            WaitCondition::Navigation => args@.get("until"@) == Some(JsonView::Str("navigation"@)),
            WaitCondition::Idle => args@.get("until"@) == Some(JsonView::Str("idle"@)),
        },
        r is Ok <==> (args@.get("until"@) matches Some(JsonView::Str(until)) && (until
            == "navigation"@ || until == "idle"@ || ((until == "selector"@ || until == "text"@) && (
        args@.get("value"@) matches Some(JsonView::Str(_)))))),
{
    reveal_strlit("selector");
    reveal_strlit("text");
    reveal_strlit("navigation");
    reveal_strlit("idle");
    assert("selector"@.len() == 8);
    assert("text"@.len() == 4);
    assert("navigation"@.len() == 10);
    assert("idle"@.len() == 4);
    assert("text"@[0] != "idle"@[0]);
}

/// A condition goes on the wire as what it is, with its text.
pub proof fn law_conditions_are_written(c: WaitCondition, r: Json)
    requires
        call_ensures(WaitCondition::to_json, (&c,), r),
    ensures
        match c {
            WaitCondition::Selector { value } => r@.get("until"@) == Some(JsonView::Str("selector"@))
                && r@.get("value"@) == Some(JsonView::Str(value@)),
            WaitCondition::Text { value } => r@.get("until"@) == Some(JsonView::Str("text"@))
                && r@.get("value"@) == Some(JsonView::Str(value@)),
            WaitCondition::Navigation => r@.get("until"@) == Some(JsonView::Str("navigation"@))
                && r@.get("value"@) is None,
            WaitCondition::Idle => r@.get("until"@) == Some(JsonView::Str("idle"@)) && r@.get(
                "value"@,
            ) is None,
        },
{
    reveal_strlit("until");
    reveal_strlit("value");
    assert("until"@.len() == 5);
    assert("value"@.len() == 5);
    assert("until"@[0] != "value"@[0]);
}

/// A wait takes as many milliseconds as its seconds come to; it succeeds only where the browser says
/// that the condition came to hold.
pub proof fn law_waits(secs: u64, ms: u64, reply: Reply<Done>, r: Result<CommandOutput, WebPilotError>)
    requires
        call_ensures(timeout_ms, (secs,), ms),
        call_ensures(dispatch, (reply,), r),
    ensures
        secs <= 18446744073709551 ==> ms == 1000 * secs,
        secs > 18446744073709551 ==> ms == 18446744073709551615,
        r is Ok <==> (reply matches Reply::Data(d) && d.success),
        r matches Ok(o) ==> o matches CommandOutput::Message(m) && m@ == "OK"@,
        reply matches Reply::Error(e) ==> r->Err_0@ == e@,
        reply matches Reply::Data(d) ==> (!d.success && d.error is Some ==> r->Err_0@
            == d.error->0@),
{
}

} // verus!
