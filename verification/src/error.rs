use vstd::prelude::*;

verus! {

/// Possible error kinds.
///
/// Every fallible operation of this crate fails with exactly one of these
/// kinds. Callers can distinguish input mistakes they can fix
/// (`InvalidInput`) from data-integrity failures (`CorruptedFragments`) and
/// from faults of the execution substrate or a coding engine (`Other`).
#[derive(Debug, Clone, Copy, PartialEq, Eq, Hash, Structural)]
pub enum ErrorKind {
    /// Failed to decode data due to input fragments corruption.
    CorruptedFragments,

    /// Input is invalid.
    InvalidInput,

    /// Other error.
    Other,
}

/// This crate's error type: an [`ErrorKind`] together with a diagnostic
/// message describing the underlying cause.
#[derive(Debug, Clone)]
pub struct Error {
    kind: ErrorKind,
    message: String,
}

impl Error {
    /// The kind carried by this error.
    pub closed spec fn kind_spec(&self) -> ErrorKind {
        self.kind
    }

    /// The diagnostic message carried by this error.
    pub closed spec fn message_spec(&self) -> Seq<char> {
        self.message@
    }

    /// Makes an error of the given kind with an empty message.
    pub fn new(kind: ErrorKind) -> (e: Self)
        ensures
            e.kind_spec() == kind,
            e.message_spec() == Seq::<char>::empty(),
    {
        Error { kind, message: String::new() }
    }

    /// Makes an error of the given kind carrying the given message.
    pub fn with_message(kind: ErrorKind, message: String) -> (e: Self)
        ensures
            e.kind_spec() == kind,
            e.message_spec() == message@,
    {
        Error { kind, message }
    }

    /// Returns the kind of this error.
    pub fn kind(&self) -> (k: &ErrorKind)
        ensures
            *k == self.kind_spec(),
    {
        &self.kind
    }

    /// Returns the diagnostic message of this error.
    pub fn message(&self) -> (m: &String)
        ensures
            m@ == self.message_spec(),
    {
        &self.message
    }
}

} // verus!
