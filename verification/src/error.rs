//! Why a request fails.

use vstd::prelude::*;

verus! {

/// Why a request fails.
#[derive(Debug, PartialEq)]
pub enum RequestError {
    /// The host asked for the request to be cancelled.
    Cancelled,
    /// Anything else, in words.
    Message(String),
}

/// What a `RequestError` says.
pub enum ErrorView {
    Cancelled,
    Message(Seq<char>),
}

impl View for RequestError {
    type V = ErrorView;

    open spec fn view(&self) -> ErrorView {
        match self {
            RequestError::Cancelled => ErrorView::Cancelled,
            RequestError::Message(message) => ErrorView::Message(message@),
        }
    }
}

impl From<String> for RequestError {
    fn from(message: String) -> (error: RequestError) {
        RequestError::Message(message)
    }
}

impl vstd::std_specs::convert::FromSpecImpl<String> for RequestError {
    open spec fn obeys_from_spec() -> bool {
        true
    }

    open spec fn from_spec(message: String) -> RequestError {
        RequestError::Message(message)
    }
}

impl RequestError {
    /// The error that says `message`.
    pub fn message(message: &str) -> (error: RequestError)
        ensures
            error@ == ErrorView::Message(message@),
    {
        RequestError::Message(message.to_owned())
    }

    /// A copy of the error.
    pub fn copy(&self) -> (error: RequestError)
        ensures
            error@ == self@,
    {
        match self {
            RequestError::Cancelled => RequestError::Cancelled,
            RequestError::Message(message) => RequestError::Message(message.clone()),
        }
    }

    /// The error in words.
    pub fn describe(&self) -> (text: String)
        ensures
            text@ == described(self@),
    {
        match self {
            RequestError::Cancelled => "request cancelled".to_owned(),
            RequestError::Message(message) => message.clone(),
        }
    }
}

/// What the outcome of a request says.
pub open spec fn result_view<T: View>(result: Result<T, RequestError>) -> Result<T::V, ErrorView> {
    match result {
        Ok(value) => Ok(value@),
        Err(error) => Err(error@),
    }
}

/// The outcome of a check that may find a fault.
pub open spec fn verdict(fault: Option<Seq<char>>) -> Result<(), ErrorView> {
    match fault {
        Some(message) => Err(ErrorView::Message(message)),
        None => Ok(()),
    }
}

/// An error in words.
pub open spec fn described(error: ErrorView) -> Seq<char> {
    match error {
        ErrorView::Cancelled => "request cancelled"@,
        ErrorView::Message(message) => message,
    }
}

/// An error in words is its message; a cancellation has words of its own.
pub proof fn law_errors_keep_their_message(message: Seq<char>)
    ensures
        described(ErrorView::Message(message)) == message,
        described(ErrorView::Cancelled) == "request cancelled"@,
{
}

} // verus!
