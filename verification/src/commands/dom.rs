//! `dom`: reads and writes what elements hold.
use crate::error;
use crate::error::{ErrorView, WebPilotError};
use crate::json::{Json, JsonView};
use crate::model;
use crate::output::{CommandOutput, OutputView};
use crate::protocol;
use crate::protocol::Reply;
use crate::text;
use vstd::prelude::*;
use vstd::string::StringExecFns;

verus! {

/// The arguments of `dom`.
#[derive(Debug, PartialEq, Eq)]
pub struct DomArgs {
    pub command: DomCommand,
}

/// What `dom` does.
#[derive(Debug, PartialEq, Eq)]
pub enum DomCommand {
    SetHtml { selector: String, value: String },
    SetText { selector: String, value: String },
    SetAttr { selector: String, attr: String, value: String },
    GetHtml { selector: String },
    GetText { selector: String },
    GetAttr { selector: String, attr: String },
}

/// What of an element is read or written.
#[derive(Debug, PartialEq, Eq)]
pub enum DomProperty {
    Html,
    Text,
    Attr { name: String },
}

/// The request that goes to the browser: a read, or a write of a value.
#[derive(Debug, PartialEq, Eq)]
pub struct DomRequest {
    pub selector: String,
    pub property: DomProperty,
    pub value: Option<String>,
}

/// The selector of a command.
pub open spec fn selector_of(command: DomCommand) -> Seq<char> {
    match command {
        DomCommand::SetHtml { selector, .. } => selector@,
        DomCommand::SetText { selector, .. } => selector@,
        DomCommand::SetAttr { selector, .. } => selector@,
        DomCommand::GetHtml { selector } => selector@,
        DomCommand::GetText { selector } => selector@,
        DomCommand::GetAttr { selector, .. } => selector@,
    }
}

/// The value that a command writes; none where it reads.
pub open spec fn value_of(command: DomCommand) -> Option<Seq<char>> {
    match command {
        DomCommand::SetHtml { value, .. } => Some(value@),
        DomCommand::SetText { value, .. } => Some(value@),
        DomCommand::SetAttr { value, .. } => Some(value@),
        _ => None,
    }
}

/// Whether a property is what a command is about.
pub open spec fn is_property_of(property: DomProperty, command: DomCommand) -> bool {
    match command {
        DomCommand::SetHtml { .. } => property is Html,
        DomCommand::GetHtml { .. } => property is Html,
        DomCommand::SetText { .. } => property is Text,
        DomCommand::GetText { .. } => property is Text,
        DomCommand::SetAttr { attr, .. } => property matches DomProperty::Attr { name } && name@
            == attr@,
        DomCommand::GetAttr { attr, .. } => property matches DomProperty::Attr { name } && name@
            == attr@,
    }
}

/// The request that a command sends.
pub fn request(command: DomCommand) -> (r: DomRequest)
    ensures
        r.selector@ == selector_of(command),
        is_property_of(r.property, command),
        model::maybe(r.value) == value_of(command),
{
    match command {
        DomCommand::SetHtml { selector, value } => DomRequest {
            selector,
            property: DomProperty::Html,
            value: Some(value),
        },
        DomCommand::SetText { selector, value } => DomRequest {
            selector,
            property: DomProperty::Text,
            value: Some(value),
        },
        DomCommand::SetAttr { selector, attr, value } => DomRequest {
            selector,
            property: DomProperty::Attr { name: attr },
            value: Some(value),
        },
        DomCommand::GetHtml { selector } => DomRequest {
            selector,
            property: DomProperty::Html,
            value: None,
        },
        DomCommand::GetText { selector } => DomRequest {
            selector,
            property: DomProperty::Text,
            value: None,
        },
        DomCommand::GetAttr { selector, attr } => DomRequest {
            selector,
            property: DomProperty::Attr { name: attr },
            value: None,
        },
    }
}

/// What a read is a read of. A write has none.
pub open spec fn label_of(command: DomCommand) -> Option<Seq<char>> {
    match command {
        DomCommand::GetAttr { attr, .. } => Some("attribute '"@ + attr@ + "'"@),
        DomCommand::GetText { .. } => Some("text"@),
        DomCommand::GetHtml { .. } => Some("html"@),
        _ => None,
    }
}

/// What a read is a read of. A write has none.
pub fn get_label(command: &DomCommand) -> (r: Option<String>)
    ensures
        model::maybe(r) == label_of(*command),
{
    match command {
        DomCommand::GetAttr { attr, .. } => Some(
            "attribute '".to_owned().concat(attr.as_str()).concat("'"),
        ),
        DomCommand::GetText { .. } => Some("text".to_owned()),
        DomCommand::GetHtml { .. } => Some("html".to_owned()),
        _ => None,
    }
}

/// The response to `dom`.
pub struct DomResult {
    pub success: bool,
    pub value: Option<String>,
    pub error: Option<WebPilotError>,
}

/// What `dom` prints: the value that was read; a note where there is none to read, which is not an
/// empty value; a confirmation of a write. A failure is never any of these.
pub open spec fn run_outcome(label: Option<Seq<char>>, reply: Reply<DomResult>) -> Result<
    OutputView,
    ErrorView,
> {
    match reply {
        Reply::Data(d) => if !d.success {
            Err(
                match d.error {
                    Some(e) => e@,
                    None => ErrorView::Other("DOM operation failed"@),
                },
            )
        } else {
            Ok(
                match d.value {
                    Some(v) => OutputView::Content(
                        v@,
                        JsonView::object().with("success"@, JsonView::Bool(true)).with(
                            "value"@,
                            JsonView::Str(v@),
                        ),
                        None,
                    ),
                    None => match label {
                        Some(label) => OutputView::Content(
                            Seq::empty(),
                            JsonView::object().with("success"@, JsonView::Bool(true)).with(
                                "value"@,
                                JsonView::Null,
                            ),
                            Some("(no "@ + label + " on the matched element)"@),
                        ),
                        None => OutputView::Message("OK"@),
                    },
                },
            )
        },
        _ => Err(protocol::no_data(reply)),
    }
}

/// What `dom` prints.
pub fn run(label: Option<String>, reply: Reply<DomResult>) -> (r: Result<
    CommandOutput,
    WebPilotError,
>)
    ensures
        error::outcome(r) == run_outcome(model::maybe(label), reply),
{
    let d = match reply.data() {
        Ok(d) => d,
        Err(e) => {
            return Err(e);
        },
    };
    if !d.success {
        return match d.error {
            Some(e) => Err(e),
            None => Err(WebPilotError::other("DOM operation failed")),
        };
    }
    match d.value {
        Some(v) => {
            let json = Json::object().with("success", Json::Bool(true)).with(
                "value",
                Json::string(v.as_str()),
            );
            Ok(CommandOutput::Content { stdout: v, json, note: None })
        },
        None => match label {
            Some(label) => Ok(
                CommandOutput::Content {
                    stdout: String::new(),
                    json: Json::object().with("success", Json::Bool(true)).with("value", Json::Null),
                    note: Some(
                        "(no ".to_owned().concat(label.as_str()).concat(" on the matched element)"),
                    ),
                },
            ),
            None => Ok(CommandOutput::Message("OK".to_owned())),
        },
    }
}

/// A response that reports failure never comes out as a success, even where it carries a value.
pub proof fn law_failure_is_never_success(label: Option<Seq<char>>, d: DomResult)
    ensures
        !d.success ==> run_outcome(label, Reply::Data(d)) is Err,
{
}

/// A request asks for what its command says: its selector, its property, and the value where it
/// writes one; a read writes nothing.
pub proof fn law_requests_are_their_commands(command: DomCommand, r: DomRequest)
    requires
        call_ensures(request, (command,), r),
    ensures
        match command {
            DomCommand::SetHtml { selector, value } => r.selector@ == selector@ && r.property is Html
                && r.value is Some && r.value->0@ == value@,
            DomCommand::SetText { selector, value } => r.selector@ == selector@ && r.property is Text
                && r.value is Some && r.value->0@ == value@,
            DomCommand::SetAttr { selector, attr, value } => r.selector@ == selector@ && (
            r.property matches DomProperty::Attr { name } && name@ == attr@) && r.value is Some
                && r.value->0@ == value@,
            DomCommand::GetHtml { selector } => r.selector@ == selector@ && r.property is Html
                && r.value is None,
            DomCommand::GetText { selector } => r.selector@ == selector@ && r.property is Text
                && r.value is None,
            DomCommand::GetAttr { selector, attr } => r.selector@ == selector@ && (
            r.property matches DomProperty::Attr { name } && name@ == attr@) && r.value is None,
        },
{
}

/// A read prints the value that was read, as it is; an element without it is told apart from one
/// where it is empty, naming what was read; a write is confirmed.
pub proof fn law_values_are_printed(
    command: DomCommand,
    label: Option<String>,
    reply: Reply<DomResult>,
    r: Result<CommandOutput, WebPilotError>,
)
    requires
        call_ensures(get_label, (&command,), label),
        call_ensures(run, (label, reply), r),
    ensures
        r is Ok <==> (reply matches Reply::Data(d) && d.success),
        reply matches Reply::Data(d) ==> d.success ==> {
            let reads = command is GetHtml || command is GetText || command is GetAttr;
            &&& d.value is Some ==> (r->Ok_0 matches CommandOutput::Content { stdout, json, note }
                && stdout@ == d.value->0@ && json@.get("value"@) == Some(JsonView::Str(d.value->0@))
                && note is None)
            &&& d.value is None && reads ==> (r->Ok_0 matches CommandOutput::Content {
                stdout,
                json,
                note,
            } && stdout@.len() == 0 && json@.get("value"@) == Some(JsonView::Null) && note is Some
                && (command matches DomCommand::GetAttr { attr, .. } ==> note->0@
                == "(no attribute '"@ + attr@ + "' on the matched element)"@))
            &&& d.value is None && !reads ==> (r->Ok_0 matches CommandOutput::Message(m) && m@
                == "OK"@)
        },
        reply matches Reply::Error(e) ==> r->Err_0@ == e@,
        reply matches Reply::Data(d) ==> (!d.success && d.error is Some ==> r->Err_0@
            == d.error->0@),
{
    reveal_strlit("success");
    reveal_strlit("value");
    assert("success"@.len() == 7);
    assert("value"@.len() == 5);
    if let DomCommand::GetAttr { attr, .. } = command {
        reveal_strlit("(no ");
        reveal_strlit("attribute '");
        reveal_strlit("'");
        reveal_strlit(" on the matched element)");
        reveal_strlit("(no attribute '");
        reveal_strlit("' on the matched element)");
        assert("(no "@ + ("attribute '"@ + attr@ + "'"@) + " on the matched element)"@
            =~= "(no attribute '"@ + attr@ + "' on the matched element)"@);
    }
}

/// What a read is a read of is told: the attribute by its name, the text, the markup; a write is none.
pub proof fn law_reads_are_labelled(command: DomCommand, r: Option<String>)
    requires
        call_ensures(get_label, (&command,), r),
    ensures
        match command {
            DomCommand::GetAttr { attr, .. } => r matches Some(l) && text::holds(l@, attr@),
            DomCommand::GetText { .. } => r matches Some(l) && l@ == "text"@,
            DomCommand::GetHtml { .. } => r matches Some(l) && l@ == "html"@,
            _ => r is None,
        },
{
    if let DomCommand::GetAttr { attr, .. } = command {
        text::lemma_part("attribute '"@, attr@, "'"@);
    }
}

} // verus!
