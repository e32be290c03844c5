//! The errors that an operation can end with.

use vstd::prelude::*;

verus! {

/// Why an operation was turned down. An operation that returns one of these
/// has changed nothing.
#[derive(Clone, Copy, Debug, PartialEq, Eq, Structural)]
pub enum TodoError {
    /// The title has no bytes at all.
    TitleEmpty,
    /// The title holds nothing but white space.
    TitleWhitespaceOnly,
    /// The title is shorter than three bytes.
    TitleTooShort,
    /// The title is longer than two hundred bytes.
    TitleTooLong,
    /// The owner already has a counter.
    AlreadyInitialized,
    /// The owner has no counter yet.
    CounterMissing,
    /// No record lives under the sequence number given.
    RecordNotFound,
}

} // verus!
