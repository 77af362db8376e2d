//! Errors of the library.
use vstd::prelude::*;

verus! {

/// What can go wrong in the library's own computations.
#[derive(Debug)]
pub enum LupeError {
    /// An object hash too short to name a stored object.
    InvalidObjectHash(String),
    /// A text that is not a UUID.
    InvalidUuid(String),
    /// A diff range was asked for with only its end given.
    BadDiffRange,
    /// No HEAD file names a checkpoint yet.
    NoHead,
    /// The checkpoint has no parent to compare against.
    NoParent(u128),
    /// Only one checkpoint exists, so there is nothing to compare against.
    OnlyOneCheckpoint,
    /// No checkpoint has been recorded yet.
    NoCheckpoint,
    /// No checkpoint id begins with the given text.
    NoCheckpointMatching(String),
    /// No branch has the given name.
    NoBranch(String),
}

}
