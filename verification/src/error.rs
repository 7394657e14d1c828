//! The error model: a kind, a human-readable message, and the byte offset in
//! the input at which the fault was detected.

use vstd::prelude::*;

verus! {

/// What went wrong during a parse.
#[derive(Debug, Copy, Clone, PartialEq, Eq, Hash, PartialOrd, Ord)]
pub enum ErrorKind {
    /// A structurally invalid byte at the current grammar position,
    /// including unknown type tags.
    UnexpectedChar,
    /// An assignment's identifier segment was empty.
    EmptyIdent,
    /// A value's raw bytes failed literal decoding, the value segment was
    /// empty, or a collection literal was malformed.
    WrongValue,
}

/// An error, carrying its kind, a message, and the byte offset at which the
/// parse failed.
#[derive(Debug)]
pub struct Error {
    /// The kind of error.
    pub kind: ErrorKind,
    /// Detailed information about the error.
    pub message: String,
    /// The byte offset of the failure in the input.
    pub index: usize,
}

impl Error {
    /// Create a new error.
    pub fn new(kind: ErrorKind, message: String, index: usize) -> (r: Error)
        ensures
            r.kind == kind,
            r.message == message,
            r.index == index,
    {
        Error { kind, message, index }
    }
}

} // verus!
