//! Errors of the synchronization core.
use vstd::prelude::*;

verus! {

/// What can go wrong while applying, composing or exchanging revisions.
#[derive(Clone, Copy, Debug, PartialEq, Eq, Structural)]
pub enum SyncError {
    /// A delta's base length disagrees with the content it is applied to.
    /// Not retriable: the object must be recovered from a snapshot.
    StructuralMismatch,
    /// The materialized content does not hash to the declared checksum.
    ChecksumMismatch,
    /// The transport could not deliver a revision; retried unchanged.
    TransportFailure,
    /// A snapshot could not be fetched while recovering.
    SnapshotFetchFailure,
    /// An internal invariant of the synchronizer does not hold.
    InvariantViolation,
    /// The editing session of the object has been closed.
    ObjectClosed,
}

impl SyncError {
    /// Whether the failed operation may be retried with the same payload.
    pub fn is_retriable(&self) -> (r: bool)
        ensures
            r <==> (*self == SyncError::TransportFailure || *self
                == SyncError::SnapshotFetchFailure),
    {
        match self {
            SyncError::TransportFailure | SyncError::SnapshotFetchFailure => true,
            _ => false,
        }
    }

    /// Whether the error forces a snapshot-based recovery of the object.
    pub fn forces_recovery(&self) -> (r: bool)
        ensures
            r <==> (*self == SyncError::StructuralMismatch || *self
                == SyncError::ChecksumMismatch),
    {
        match self {
            SyncError::StructuralMismatch | SyncError::ChecksumMismatch => true,
            _ => false,
        }
    }
}

} // verus!
