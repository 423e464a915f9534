//! What the host's answers come to.
use crate::error;
use crate::error::{ErrorView, WebPilotError};
use crate::model;
use vstd::prelude::*;

verus! {

/// An answer of the host: what was asked for, an error in words, or anything else.
pub enum Answer<T> {
    Data(T),
    Error(String),
    Other,
}

/// Whether something was done, and why not.
pub struct Done {
    pub success: bool,
    pub error: Option<String>,
}

/// The error for an answer of another kind than the command expects.
pub open spec fn unexpected_error() -> ErrorView {
    ErrorView::Other("Unexpected response"@)
}

/// The error for an answer of another kind than the command expects.
pub fn unexpected() -> (r: WebPilotError)
    ensures
        r@ == unexpected_error(),
{
    WebPilotError::other("Unexpected response")
}

/// Why an answer holds no data.
pub open spec fn refusal<T>(answer: Answer<T>) -> ErrorView {
    match answer {
        Answer::Error(message) => ErrorView::Other(message@),
        _ => unexpected_error(),
    }
}

impl<T> Answer<T> {
    /// What was asked for. An error's own words are passed on.
    pub fn data(self) -> (r: Result<T, WebPilotError>)
        ensures
            match self {
                Answer::Data(d) => r == Ok::<T, WebPilotError>(d),
                _ => r is Err && r->Err_0@ == refusal(self),
            },
    {
        match self {
            Answer::Data(d) => Ok(d),
            Answer::Error(message) => Err(WebPilotError::Other { detail: message }),
            Answer::Other => Err(unexpected()),
        }
    }

    /// What was asked for, where the host gives no reasons: whatever else it says is unexpected.
    pub fn only_data(self) -> (r: Result<T, WebPilotError>)
        ensures
            match self {
                Answer::Data(d) => r == Ok::<T, WebPilotError>(d),
                _ => r is Err && r->Err_0@ == unexpected_error(),
            },
    {
        match self {
            Answer::Data(d) => Ok(d),
            _ => Err(unexpected()),
        }
    }
}

/// Why something was not done.
pub open spec fn why_not(error: Option<Seq<char>>) -> ErrorView {
    match error {
        Some(e) => ErrorView::Other(e),
        None => ErrorView::Other("Unknown error"@),
    }
}

/// What something comes to that is either done or not.
pub fn check_done(done: Done) -> (r: Result<(), WebPilotError>)
    ensures
        done.success ==> r is Ok,
        !done.success ==> r is Err && r->Err_0@ == why_not(model::maybe(done.error)),
{
    if done.success {
        return Ok(());
    }
    match done.error {
        Some(e) => Err(WebPilotError::Other { detail: e }),
        None => Err(WebPilotError::other("Unknown error")),
    }
}

/// What was asked for is handed over as it came; an error is passed on in its own words where the
/// host gives reasons; what was not done fails with its reason.
pub proof fn law_answers<T>(
    answer: Answer<T>,
    r: Result<T, WebPilotError>,
    only: Result<T, WebPilotError>,
    done: Done,
    checked: Result<(), WebPilotError>,
)
    requires
        call_ensures(Answer::<T>::data, (answer,), r),
        call_ensures(Answer::<T>::only_data, (answer,), only),
        call_ensures(check_done, (done,), checked),
    ensures
        answer matches Answer::Data(d) ==> r matches Ok(got) && got == d && (only matches Ok(also)
            && also == d),
        answer matches Answer::Error(m) ==> (r matches Err(WebPilotError::Other { detail }) && detail@
            == m@) && only is Err,
        answer is Other ==> r is Err && only is Err,
        checked is Ok <==> done.success,
        !done.success && done.error is Some ==> (checked matches Err(
            WebPilotError::Other { detail },
        ) && detail@ == done.error->0@),
{
}

} // verus!
