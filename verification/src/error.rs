//! The ways in which a request can fail inside the gateway.

use vstd::prelude::*;
use vstd::string::StringExecFns;
use crate::discover::{NotConfigured, NotResolved};

verus! {

/// How talking to a backend failed.
#[derive(Clone, Copy, Debug, PartialEq, Eq, Structural)]
pub enum DispatchError {
    /// The backend refused the connection.
    Refused,
    /// The backend reset the connection.
    Reset,
    /// The backend did not answer in time.
    TimedOut,
}

/// Why a request did not get its backend's response.
#[derive(Clone, Debug)]
pub enum Error {
    /// No route matched the request; holds the request target.
    NoRoute(String),
    /// The backend has no discovery mapping.
    NotConfigured(NotConfigured),
    /// The backend is configured but has no live address.
    NotResolved(NotResolved),
    /// The backend's admission queue was full.
    Overloaded,
    /// The request waited for admission longer than the queue allows.
    FailFast,
    /// Talking to the backend failed.
    Dispatch(DispatchError),
    /// The backend broke the protocol in mid-stream.
    Protocol,
    /// Anything else; holds a description.
    Unexpected(String),
}

/// An error as a value of mathematics.
pub enum ErrorView {
    NoRoute(Seq<char>),
    NotConfigured(Seq<char>),
    NotResolved,
    Overloaded,
    FailFast,
    Dispatch(DispatchError),
    Protocol,
    Unexpected(Seq<char>),
}

impl View for Error {
    type V = ErrorView;

    open spec fn view(&self) -> ErrorView {
        match *self {
            Error::NoRoute(uri) => ErrorView::NoRoute(uri@),
            Error::NotConfigured(e) => ErrorView::NotConfigured(e.0@),
            Error::NotResolved(_) => ErrorView::NotResolved,
            Error::Overloaded => ErrorView::Overloaded,
            Error::FailFast => ErrorView::FailFast,
            Error::Dispatch(d) => ErrorView::Dispatch(d),
            Error::Protocol => ErrorView::Protocol,
            Error::Unexpected(what) => ErrorView::Unexpected(what@),
        }
    }
}

impl ErrorView {
    /// What the error says of itself.
    pub open spec fn message(self) -> Seq<char> {
        match self {
            ErrorView::NoRoute(uri) => "no route for request "@ + uri,
            ErrorView::NotConfigured(name) => "mDNS service '"@ + name
                + "' not in configured domains"@,
            ErrorView::NotResolved => "no mDNS service discovered for this domain"@,
            ErrorView::Overloaded => "service queue is at capacity"@,
            ErrorView::FailFast => "request waited too long for admission"@,
            ErrorView::Dispatch(DispatchError::Refused) => "backend refused the connection"@,
            ErrorView::Dispatch(DispatchError::Reset) => "backend reset the connection"@,
            ErrorView::Dispatch(DispatchError::TimedOut) => "backend did not answer in time"@,
            ErrorView::Protocol => "backend broke the protocol"@,
            ErrorView::Unexpected(what) => what,
        }
    }
}

impl Error {
    /// What the error says of itself.
    pub fn message(&self) -> (text: String)
        ensures
            text@ == self@.message(),
    {
        match self {
            Error::NoRoute(uri) => String::from_str("no route for request ").concat(uri.as_str()),
            Error::NotConfigured(e) => e.message(),
            Error::NotResolved(e) => e.message(),
            Error::Overloaded => String::from_str("service queue is at capacity"),
            Error::FailFast => String::from_str("request waited too long for admission"),
            Error::Dispatch(DispatchError::Refused) => String::from_str(
                "backend refused the connection",
            ),
            Error::Dispatch(DispatchError::Reset) => String::from_str(
                "backend reset the connection",
            ),
            Error::Dispatch(DispatchError::TimedOut) => String::from_str(
                "backend did not answer in time",
            ),
            Error::Protocol => String::from_str("backend broke the protocol"),
            Error::Unexpected(what) => what.clone(),
        }
    }
}

} // verus!
