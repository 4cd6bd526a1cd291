//! The error type shared by the whole library.

use vstd::prelude::*;

use crate::status::Status;

verus! {

/// What went wrong, broadly.
#[derive(Clone, Copy, PartialEq, Eq, Debug, Structural)]
pub enum ErrorKind {
    IO,
    Sync,
    Parse,
    /// A failure that maps onto a response with this status.
    Api(Status),
    Unknown,
}

/// An error: its kind, an optional message, and an optional description of
/// the underlying cause.
#[derive(Clone, Debug)]
pub struct Error {
    kind: ErrorKind,
    message: Option<String>,
    cause: Option<String>,
}

pub type Result<T> = core::result::Result<T, Error>;

impl Error {
    pub closed spec fn spec_kind(&self) -> ErrorKind {
        self.kind
    }

    pub closed spec fn spec_message(&self) -> Option<String> {
        self.message
    }

    pub closed spec fn spec_cause(&self) -> Option<String> {
        self.cause
    }

    pub fn new(kind: ErrorKind, msg: Option<String>, cause: Option<String>) -> (r: Self)
        ensures
            r.spec_kind() == kind,
            r.spec_message() == msg,
            r.spec_cause() == cause,
    {
        Error { kind, message: msg, cause }
    }

    pub fn kind(&self) -> (r: ErrorKind)
        ensures
            r == self.spec_kind(),
    {
        self.kind
    }

    pub fn message(&self) -> (r: Option<&String>)
        ensures
            r == match self.spec_message() {
                Some(m) => Some(&m),
                None => None::<&String>,
            },
    {
        match &self.message {
            Some(m) => Some(m),
            None => None,
        }
    }

    pub fn cause(&self) -> (r: Option<&String>)
        ensures
            r == match self.spec_cause() {
                Some(m) => Some(&m),
                None => None::<&String>,
            },
    {
        match &self.cause {
            Some(m) => Some(m),
            None => None,
        }
    }

    pub fn kind_as_str(&self) -> (r: &'static str)
        ensures
            r == match self.spec_kind() {
                ErrorKind::IO => "i/o",
                ErrorKind::Unknown => "unknown",
                ErrorKind::Sync => "sync",
                ErrorKind::Parse => "parse",
                ErrorKind::Api(_) => "api",
            },
    {
        match self.kind {
            ErrorKind::IO => "i/o",
            ErrorKind::Unknown => "unknown",
            ErrorKind::Sync => "sync",
            ErrorKind::Parse => "parse",
            ErrorKind::Api(_) => "api",
        }
    }

    /// An error of `kind` carrying `msg`.
    pub fn with_message(kind: ErrorKind, msg: &str) -> (r: Self)
        ensures
            r.spec_kind() == kind,
            r.spec_message() matches Some(m) && m@ == msg@,
            r.spec_cause() is None,
    {
        Error { kind, message: Some(String::from_str(msg)), cause: None }
    }
}

} // verus!
