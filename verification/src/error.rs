//! The failures that the service reports, their user-facing messages and
//! the HTTP status each one is answered with.

use crate::text::join3;
use vstd::prelude::*;

verus! {

/// What can go wrong while shortening or resolving.
#[derive(Debug, Clone, PartialEq, Eq)]
pub enum ServiceError {
    /// A stored URL cannot be used as a redirect target.
    FailedToParse(String),
    /// No record has the given code.
    NotFound(String),
    /// The given URL could not be shortened.
    CannotShorten(String),
    /// The store rejected a statement; carries the store's message.
    DbError(String),
    /// Both the first write and its one retry collided on their codes.
    RetryFailed,
    /// The store failed in a way that carries no message.
    Unknown,
}

/// The mathematical value of a [`ServiceError`]: the same variants over
/// character sequences.
pub enum Failure {
    FailedToParse(Seq<char>),
    NotFound(Seq<char>),
    CannotShorten(Seq<char>),
    DbError(Seq<char>),
    RetryFailed,
    Unknown,
}

impl View for ServiceError {
    type V = Failure;

    open spec fn view(&self) -> Failure {
        match self {
            ServiceError::FailedToParse(s) => Failure::FailedToParse(s@),
            ServiceError::NotFound(s) => Failure::NotFound(s@),
            ServiceError::CannotShorten(s) => Failure::CannotShorten(s@),
            ServiceError::DbError(s) => Failure::DbError(s@),
            ServiceError::RetryFailed => Failure::RetryFailed,
            ServiceError::Unknown => Failure::Unknown,
        }
    }
}

impl Failure {
    /// The text that describes the failure.
    pub open spec fn message(self) -> Seq<char> {
        match self {
            Failure::FailedToParse(s) => "Failed to parse url: "@ + s + "."@,
            Failure::NotFound(s) => "Not found: "@ + s + "."@,
            Failure::CannotShorten(s) => "Failed to shorten: "@ + s + "."@,
            Failure::DbError(s) => "Oops! Something went wrong: "@ + s,
            Failure::RetryFailed => "Fail to retry."@,
            Failure::Unknown => "Oops! Something went wrong. Please try again later."@,
        }
    }
}

/// The mathematical value of an answer that carries a text.
pub open spec fn text_result(r: Result<String, ServiceError>) -> Result<Seq<char>, Failure> {
    match r {
        Ok(text) => Ok(text@),
        Err(e) => Err(e@),
    }
}

/// The mathematical value of an answer that carries nothing.
pub open spec fn unit_result(r: Result<(), ServiceError>) -> Result<(), Failure> {
    match r {
        Ok(_) => Ok(()),
        Err(e) => Err(e@),
    }
}

/// HTTP status `404 Not Found`.
pub const NOT_FOUND: u16 = 404;

/// HTTP status `422 Unprocessable Entity`.
pub const UNPROCESSABLE_ENTITY: u16 = 422;

/// HTTP status `500 Internal Server Error`.
pub const INTERNAL_SERVER_ERROR: u16 = 500;

/// HTTP status `503 Service Unavailable`.
pub const SERVICE_UNAVAILABLE: u16 = 503;

impl Failure {
    /// The HTTP status that answers the failure.
    pub open spec fn status(self) -> u16 {
        match self {
            Failure::FailedToParse(_) => INTERNAL_SERVER_ERROR,
            Failure::NotFound(_) => NOT_FOUND,
            Failure::CannotShorten(_) => UNPROCESSABLE_ENTITY,
            Failure::DbError(_) => INTERNAL_SERVER_ERROR,
            Failure::RetryFailed => SERVICE_UNAVAILABLE,
            Failure::Unknown => INTERNAL_SERVER_ERROR,
        }
    }

    /// The response body that answers the failure. What the store said
    /// is not shown to the client, and an exhausted retry invites another
    /// request; every other failure is answered with its message.
    pub open spec fn body(self) -> Seq<char> {
        match self {
            Failure::DbError(_) => "Oops! Something went wrong."@,
            Failure::RetryFailed => "Please try again."@,
            _ => self.message(),
        }
    }
}

impl ServiceError {
    /// The text that describes the failure.
    pub fn to_string(&self) -> (text: String)
        ensures
            text@ == self@.message(),
    {
        match self {
            ServiceError::FailedToParse(s) => join3("Failed to parse url: ", s.as_str(), "."),
            ServiceError::NotFound(s) => join3("Not found: ", s.as_str(), "."),
            ServiceError::CannotShorten(s) => join3("Failed to shorten: ", s.as_str(), "."),
            ServiceError::DbError(s) => {
                let mut text = String::from_str("Oops! Something went wrong: ");
                text.append(s.as_str());
                text
            },
            ServiceError::RetryFailed => String::from_str("Fail to retry."),
            ServiceError::Unknown => String::from_str(
                "Oops! Something went wrong. Please try again later.",
            ),
        }
    }

    /// The HTTP status that answers the failure.
    pub fn status(&self) -> (code: u16)
        ensures
            code == self@.status(),
    {
        match self {
            ServiceError::NotFound(_) => NOT_FOUND,
            ServiceError::CannotShorten(_) => UNPROCESSABLE_ENTITY,
            ServiceError::RetryFailed => SERVICE_UNAVAILABLE,
            _ => INTERNAL_SERVER_ERROR,
        }
    }

    /// The status and body of the HTTP response that answers the failure.
    pub fn into_response(self) -> (reply: (u16, String))
        ensures
            reply.0 == self@.status(),
            reply.1@ == self@.body(),
    {
        let status = self.status();
        let body = match &self {
            ServiceError::DbError(_) => String::from_str("Oops! Something went wrong."),
            ServiceError::RetryFailed => String::from_str("Please try again."),
            _ => self.to_string(),
        };
        (status, body)
    }
}

} // verus!
