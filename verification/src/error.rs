//! The failure value that extraction returns at run time.
//!
//! Specification loading has its own error channel (`SpecError`); the
//! values here only describe failures while extracting from a document.

use vstd::prelude::*;

verus! {

/// The kind of a runtime extraction failure. The message names the failing
/// field, its enclosing structure, and the selector, attribute or index
/// involved, together with the underlying cause when parsing a value failed.
#[derive(Debug)]
pub enum ErrorKind {
    InvalidInput(String),
}

impl ErrorKind {
    /// The message carried by this kind.
    pub open spec fn msg(&self) -> Seq<char> {
        match self {
            ErrorKind::InvalidInput(m) => m@,
        }
    }
}

/// A runtime extraction failure.
#[derive(Debug)]
pub struct Error {
    pub kind: ErrorKind,
}

impl Error {
    /// The message of the failure.
    pub open spec fn msg(&self) -> Seq<char> {
        self.kind.msg()
    }

    pub fn new(kind: ErrorKind) -> (r: Error)
        ensures
            r.kind == kind,
    {
        Error { kind }
    }

    pub fn kind(&self) -> (r: &ErrorKind)
        ensures
            r == &self.kind,
    {
        &self.kind
    }

    /// The message of the failure, as text.
    pub fn message(&self) -> (r: &String)
        ensures
            r@ == self.msg(),
    {
        match &self.kind {
            ErrorKind::InvalidInput(m) => m,
        }
    }
}

/// Builds the invalid-input failure that carries `m`.
pub fn invalid_input(m: String) -> (r: Error)
    ensures
        r.msg() == m@,
{
    Error { kind: ErrorKind::InvalidInput(m) }
}

} // verus!
