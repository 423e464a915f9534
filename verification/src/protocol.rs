//! What the browser's side answers, as the commands read it.
use crate::error;
use crate::error::{ErrorView, WebPilotError};
use crate::json::{Json, JsonView};
use crate::model;
use crate::output::{CommandOutput, OutputView};
use vstd::prelude::*;

verus! {

/// The response to a command: the data it asked for, an error, or a response of some other shape.
pub enum Reply<T> {
    Data(T),
    Error(WebPilotError),
    Unexpected,
}

/// What a response comes to where it carries no data.
pub open spec fn no_data<T>(reply: Reply<T>) -> ErrorView {
    match reply {
        Reply::Error(e) => e@,
        _ => ErrorView::Other("Unexpected response shape"@),
    }
}

/// The error for a response of another shape than the command expects.
pub fn unexpected() -> (r: WebPilotError)
    ensures
        r@ == ErrorView::Other("Unexpected response shape"@),
{
    WebPilotError::other("Unexpected response shape")
}

impl<T> Reply<T> {
    /// The data of the response, or the error it comes to.
    pub fn data(self) -> (r: Result<T, WebPilotError>)
        ensures
            match self {
                Reply::Data(d) => r == Ok::<T, WebPilotError>(d),
                _ => r is Err && r->Err_0@ == no_data(self),
            },
    {
        match self {
            Reply::Data(d) => Ok(d),
            Reply::Error(e) => Err(e),
            Reply::Unexpected => Err(unexpected()),
        }
    }
}

/// What a report of failure comes to: the error it carries, or one that says no more.
pub open spec fn failure(error: Option<ErrorView>) -> ErrorView {
    match error {
        Some(e) => e,
        None => ErrorView::Other("Unknown error"@),
    }
}

/// The value of an operation that succeeded. An operation that did not never yields one, whether
/// or not it says why.
pub fn lift_error<T>(success: bool, error: Option<WebPilotError>, value: T) -> (r: Result<
    T,
    WebPilotError,
>)
    ensures
        success ==> r == Ok::<T, WebPilotError>(value),
        !success ==> r is Err && r->Err_0@ == failure(model::maybe(error)),
{
    if success {
        Ok(value)
    } else {
        match error {
            Some(e) => Err(e),
            None => Err(WebPilotError::other("Unknown error")),
        }
    }
}

/// A tab, with the JSON that describes it.
pub struct TabInfo {
    pub id: String,
    pub url: String,
    pub title: String,
    pub active: bool,
    pub wire: Json,
}

/// What a tab is.
pub struct TabView {
    pub id: Seq<char>,
    pub url: Seq<char>,
    pub title: Seq<char>,
    pub active: bool,
    pub wire: JsonView,
}

impl View for TabInfo {
    type V = TabView;

    open spec fn view(&self) -> TabView {
        TabView {
            id: self.id@,
            url: self.url@,
            title: self.title@,
            active: self.active,
            wire: self.wire@,
        }
    }
}

/// A finished or running download: the line that shows it, and the JSON that describes it.
pub struct Download {
    pub line: String,
    pub wire: Json,
}

impl View for Download {
    type V = (Seq<char>, JsonView);

    open spec fn view(&self) -> (Seq<char>, JsonView) {
        (self.line@, self.wire@)
    }
}

/// The response to an action.
pub struct ActionData {
    pub success: bool,
    pub error: Option<WebPilotError>,
    pub dom: Option<Json>,
    pub url_changed: Option<String>,
    pub new_tab: Option<TabInfo>,
    pub capture_error: Option<String>,
    pub downloads: Vec<Download>,
}

/// The response to a command that only succeeds or fails.
pub struct Done {
    pub success: bool,
    pub error: Option<WebPilotError>,
}

/// What a response that only reports success or failure comes to.
pub open spec fn done_outcome<V>(reply: Reply<Done>, value: V) -> Result<V, ErrorView> {
    match reply {
        Reply::Data(d) => if d.success {
            Ok(value)
        } else {
            Err(failure(model::maybe(d.error)))
        },
        _ => Err(no_data(reply)),
    }
}

/// The message of a command that succeeded, or the error of one that did not.
pub fn done(reply: Reply<Done>, message: String) -> (r: Result<CommandOutput, WebPilotError>)
    ensures
        error::outcome(r) == done_outcome(reply, OutputView::Message(message@)),
{
    match reply.data() {
        Ok(d) => lift_error(d.success, d.error, CommandOutput::Message(message)),
        Err(e) => Err(e),
    }
}

/// What a reply comes to: its data and no error, its own error, or an error that says that it is of
/// no shape that was expected. What did not succeed is never a value, and its reason is passed on.
pub proof fn law_replies<T>(
    reply: Reply<T>,
    data: Result<T, WebPilotError>,
    success: bool,
    error: Option<WebPilotError>,
    value: T,
    lifted: Result<T, WebPilotError>,
)
    requires
        call_ensures(Reply::<T>::data, (reply,), data),
        call_ensures(lift_error::<T>, (success, error, value), lifted),
    ensures
        reply matches Reply::Data(d) ==> data == Ok::<T, WebPilotError>(d),
        reply matches Reply::Error(e) ==> data is Err && data->Err_0@ == e@,
        reply is Unexpected ==> data is Err && data->Err_0@ is Other,
        success ==> lifted == Ok::<T, WebPilotError>(value),
        !success && error is Some ==> lifted is Err && lifted->Err_0@ == error->0@,
        !success && error is None ==> lifted is Err && lifted->Err_0@ is Other,
{
}

/// A command that only succeeds or fails says its message exactly where it succeeded.
pub proof fn law_done(reply: Reply<Done>, message: String, r: Result<CommandOutput, WebPilotError>)
    requires
        call_ensures(done, (reply, message), r),
    ensures
        r is Ok <==> (reply matches Reply::Data(d) && d.success),
        r matches Ok(o) ==> o matches CommandOutput::Message(m) && m@ == message@,
        reply matches Reply::Error(e) ==> r->Err_0@ == e@,
        reply matches Reply::Data(d) ==> (!d.success && d.error is Some ==> r->Err_0@
            == d.error->0@),
{
}

} // verus!
