//! The typed failures that commands report.
use vstd::prelude::*;

verus! {

/// Why a command failed.
#[derive(Debug, PartialEq, Eq)]
pub enum WebPilotError {
    InvalidArgument { detail: String },
    ConnectionLost { detail: String },
    VersionMismatch { extension: String, expected: String },
    Timeout { kind: String, elapsed_ms: u64 },
    ContextNotFound { name: String },
    ContextInUse { name: String },
    CookieNotFound { name: String },
    SelectorNotFound { selector: String },
    TabNotFound { tab_id: String },
    NoPage,
    PolicyDenied { operation: String },
    Other { detail: String },
}

/// What a failure is.
pub enum ErrorView {
    InvalidArgument(Seq<char>),
    ConnectionLost(Seq<char>),
    VersionMismatch(Seq<char>, Seq<char>),
    Timeout(Seq<char>, u64),
    ContextNotFound(Seq<char>),
    ContextInUse(Seq<char>),
    CookieNotFound(Seq<char>),
    SelectorNotFound(Seq<char>),
    TabNotFound(Seq<char>),
    NoPage,
    PolicyDenied(Seq<char>),
    Other(Seq<char>),
}

impl View for WebPilotError {
    type V = ErrorView;

    open spec fn view(&self) -> ErrorView {
        match self {
            WebPilotError::InvalidArgument { detail } => ErrorView::InvalidArgument(detail@),
            WebPilotError::ConnectionLost { detail } => ErrorView::ConnectionLost(detail@),
            WebPilotError::VersionMismatch { extension, expected } => ErrorView::VersionMismatch(
                extension@,
                expected@,
            ),
            WebPilotError::Timeout { kind, elapsed_ms } => ErrorView::Timeout(kind@, *elapsed_ms),
            WebPilotError::ContextNotFound { name } => ErrorView::ContextNotFound(name@),
            WebPilotError::ContextInUse { name } => ErrorView::ContextInUse(name@),
            WebPilotError::CookieNotFound { name } => ErrorView::CookieNotFound(name@),
            WebPilotError::SelectorNotFound { selector } => ErrorView::SelectorNotFound(selector@),
            WebPilotError::TabNotFound { tab_id } => ErrorView::TabNotFound(tab_id@),
            WebPilotError::NoPage => ErrorView::NoPage,
            WebPilotError::PolicyDenied { operation } => ErrorView::PolicyDenied(operation@),
            WebPilotError::Other { detail } => ErrorView::Other(detail@),
        }
    }
}

/// The class of a failure, as a program that runs this one sees it: 3 where the browser cannot be
/// reached, 4 where what was asked for is not there, 5 where something took too long, 7 where the
/// arguments were wrong, and 1 for anything else.
pub open spec fn class_of(e: ErrorView) -> i32 {
    match e {
        ErrorView::ConnectionLost(_) => 3,
        ErrorView::VersionMismatch(_, _) => 3,
        ErrorView::CookieNotFound(_) => 4,
        ErrorView::SelectorNotFound(_) => 4,
        ErrorView::TabNotFound(_) => 4,
        ErrorView::ContextNotFound(_) => 4,
        ErrorView::Timeout(_, _) => 5,
        ErrorView::InvalidArgument(_) => 7,
        _ => 1,
    }
}

/// What a fallible operation came to.
pub open spec fn outcome<T: View>(r: Result<T, WebPilotError>) -> Result<T::V, ErrorView> {
    match r {
        Ok(v) => Ok(v@),
        Err(e) => Err(e@),
    }
}

impl WebPilotError {
    /// The class of the failure: the code that the program ends with.
    pub fn exit_code(&self) -> (r: i32)
        ensures
            r == class_of(self@),
    {
        match self {
            WebPilotError::ConnectionLost { .. } => 3,
            WebPilotError::VersionMismatch { .. } => 3,
            WebPilotError::CookieNotFound { .. } => 4,
            WebPilotError::SelectorNotFound { .. } => 4,
            WebPilotError::TabNotFound { .. } => 4,
            WebPilotError::ContextNotFound { .. } => 4,
            WebPilotError::Timeout { .. } => 5,
            WebPilotError::InvalidArgument { .. } => 7,
            _ => 1,
        }
    }

    /// A rejected argument.
    pub fn invalid(detail: &str) -> (r: WebPilotError)
        ensures
            r@ == ErrorView::InvalidArgument(detail@),
    {
        WebPilotError::InvalidArgument { detail: detail.to_owned() }
    }

    /// A lost connection.
    pub fn lost(detail: &str) -> (r: WebPilotError)
        ensures
            r@ == ErrorView::ConnectionLost(detail@),
    {
        WebPilotError::ConnectionLost { detail: detail.to_owned() }
    }

    /// A failure with no type of its own.
    pub fn other(detail: &str) -> (r: WebPilotError)
        ensures
            r@ == ErrorView::Other(detail@),
    {
        WebPilotError::Other { detail: detail.to_owned() }
    }
}

/// A program ends with the code that tells what went wrong: 3 where the browser was not reached, 4
/// where something was not there, 5 where it took too long, 7 where the arguments were wrong, 1
/// otherwise; never as if all had gone well.
pub proof fn law_exit_codes(e: WebPilotError, code: i32)
    requires
        call_ensures(WebPilotError::exit_code, (&e,), code),
    ensures
        code == 3 <==> e is ConnectionLost || e is VersionMismatch,
        code == 4 <==> e is CookieNotFound || e is SelectorNotFound || e is TabNotFound || e
            is ContextNotFound,
        code == 5 <==> e is Timeout,
        code == 7 <==> e is InvalidArgument,
        code == 1 <==> e is ContextInUse || e is NoPage || e is PolicyDenied || e is Other,
        code != 0,
{
}

} // verus!
