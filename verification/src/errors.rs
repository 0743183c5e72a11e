//! The errors this layer surfaces to its callers.

use vstd::prelude::*;

verus! {

/// A storage-level failure surfaced to the caller.
///
/// Programming-error invariants (unexpected operation kinds in a batch,
/// forbidden change causes at flush time) are not here: those are ruled out
/// by the functions' preconditions rather than reported.
#[derive(Clone, Copy, Debug, PartialEq, Eq, Structural)]
pub enum StoreError {
    /// A node-storage key did not have the shard-and-hash shape.
    InvalidStateKey,
    /// A stored change-log value did not decode to a change record.
    CorruptChangeRecord,
}

impl StoreError {
    /// A short description of the failure.
    pub fn message(&self) -> &'static str {
        match self {
            StoreError::InvalidStateKey => "node-storage key is not shard id plus hash",
            StoreError::CorruptChangeRecord => "change-log value does not decode to a record",
        }
    }
}

} // verus!
