//! The error taxonomy of the storage core.

use vstd::prelude::*;

verus! {

/// Every failure the storage core can report.
///
/// - `StorageError`: a backend failed to read or write (I/O at the backend's
///   edge); the in-memory backend never produces it.
/// - `PartialCommitError`: a multi-step modification failed after its first
///   step had already succeeded, so new content is stored while a metadata
///   assertion is missing. Surfaced, never swallowed.
/// - `LoggingError`: the shared logger's lock was unavailable.
/// - `DispatchError`: a message could not be delivered to, or answered by,
///   the dispatcher that owns a table instance.
/// - `ArgumentError`: malformed input handed in by a collaborator.
#[derive(Clone, Debug, PartialEq, Eq)]
pub enum HolochainError {
    StorageError(String),
    PartialCommitError,
    LoggingError,
    DispatchError(String),
    ArgumentError(String),
}

} // verus!
