//! The failures the backend tells apart. Three of them reach the client inside
//! an error envelope; a telemetry failure is only ever logged.

use vstd::prelude::*;

verus! {

/// A request that is turned away before the persistence gateway is touched.
#[derive(Clone, Copy, Debug, PartialEq, Eq, Structural)]
pub enum ValidationError {
    /// The path identifier is empty.
    EmptyId,
}

/// A failure reported by the persistence gateway, with the gateway's message.
#[derive(Clone, Debug, PartialEq, Eq)]
pub enum DomainError {
    NotFound(String),
    Persistence(String),
}

/// A protected path was asked for without a valid credential.
#[derive(Clone, Copy, Debug, PartialEq, Eq, Structural)]
pub enum AuthError {
    /// No credential came with the request, or one that could not be read.
    MissingCredential,
    /// A credential came with the request and was not accepted.
    InvalidCredential,
}

/// The counter store could not be reached or refused the increment.
#[derive(Clone, Debug, PartialEq, Eq)]
pub struct TelemetryError {
    pub message: String,
}

impl ValidationError {
    /// The text a client is shown.
    pub open spec fn text(self) -> Seq<char> {
        match self {
            ValidationError::EmptyId => "id is empty"@,
        }
    }

    pub fn message(&self) -> (message: String)
        ensures
            message@ == self.text(),
    {
        match self {
            ValidationError::EmptyId => String::from_str("id is empty"),
        }
    }
}

impl DomainError {
    /// The message the gateway gave.
    pub open spec fn text(self) -> Seq<char> {
        match self {
            DomainError::NotFound(message) => message@,
            DomainError::Persistence(message) => message@,
        }
    }

    pub fn message(&self) -> (message: String)
        ensures
            message@ == self.text(),
    {
        match self {
            DomainError::NotFound(message) => message.clone(),
            DomainError::Persistence(message) => message.clone(),
        }
    }
}

impl AuthError {
    /// The text a client is shown: the same for either variant, so that a
    /// response does not tell which check failed.
    pub open spec fn text(self) -> Seq<char> {
        "unauthorized"@
    }

    pub fn message(&self) -> (message: String)
        ensures
            message@ == self.text(),
    {
        String::from_str("unauthorized")
    }
}

} // verus!
