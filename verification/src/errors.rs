//! Failures reported by the stores, the dispatchers and the repository.

use vstd::prelude::*;

verus! {

/// What went wrong, by the phase that failed.
#[derive(Debug, Clone, Copy, PartialEq, Eq, Structural)]
pub enum ErrorKind {
    /// The aggregate rejected the command. Nothing was written or dispatched.
    Validation,
    /// A backend read or write failed, or a uniqueness or guard constraint was hit.
    /// A prefix of a batch may already be durable.
    Storage,
    /// A dispatcher failed after the events were committed.
    Dispatch,
    /// A stored record could not be encoded or decoded.
    Serialization,
}

/// A failure with its kind and a human-readable message.
#[derive(Debug, Clone, PartialEq)]
pub struct Error {
    pub kind: ErrorKind,
    pub message: String,
}

impl Error {
    /// Builds an error of the given kind.
    pub fn new(kind: ErrorKind, message: &str) -> (e: Error)
        ensures
            e.kind == kind,
            e.message@ == message@,
    {
        Error { kind, message: message.to_string() }
    }

    /// A command was rejected by the domain logic.
    pub fn validation(message: &str) -> (e: Error)
        ensures
            e.kind == ErrorKind::Validation,
            e.message@ == message@,
    {
        Error::new(ErrorKind::Validation, message)
    }

    /// A backend operation failed.
    pub fn storage(message: &str) -> (e: Error)
        ensures
            e.kind == ErrorKind::Storage,
            e.message@ == message@,
    {
        Error::new(ErrorKind::Storage, message)
    }

    /// A dispatcher failed.
    pub fn dispatch(message: &str) -> (e: Error)
        ensures
            e.kind == ErrorKind::Dispatch,
            e.message@ == message@,
    {
        Error::new(ErrorKind::Dispatch, message)
    }

    /// A payload could not be encoded or decoded.
    pub fn serialization(message: &str) -> (e: Error)
        ensures
            e.kind == ErrorKind::Serialization,
            e.message@ == message@,
    {
        Error::new(ErrorKind::Serialization, message)
    }

    /// The same failure, reported under another kind.
    pub fn with_kind(self, kind: ErrorKind) -> (e: Error)
        ensures
            e.kind == kind,
            e.message == self.message,
    {
        Error { kind, message: self.message }
    }

    /// The kind of this failure.
    pub fn kind(&self) -> (k: ErrorKind)
        ensures
            k == self.kind,
    {
        self.kind
    }

    /// The message of this failure.
    pub fn message(&self) -> (m: &str)
        ensures
            m@ == self.message@,
    {
        self.message.as_str()
    }
}

} // verus!
