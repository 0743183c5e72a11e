//! The flat-state lookup accelerator, as consumed by this layer.
//!
//! Its internal representation is a collaborator's; this layer only asks the
//! factory for a per-shard handle when building a trie.

use vstd::prelude::*;
use crate::hash::CryptoHash;

verus! {

/// A per-shard handle to the flat-state accelerator.
#[derive(Debug)]
pub struct FlatState {
    pub shard_id: u32,
    pub block_hash: Option<CryptoHash>,
}

/// Creates flat-state handles, when the accelerator is enabled at all.
#[derive(Debug)]
pub struct FlatStateFactory {
    pub enabled: bool,
}

impl FlatStateFactory {
    /// A factory; `enabled` says whether the accelerator is available.
    pub fn new(enabled: bool) -> (r: FlatStateFactory)
        ensures
            r.enabled == enabled,
    {
        FlatStateFactory { enabled }
    }

    /// A flat-state handle for one shard: only when the accelerator is
    /// enabled, and never for the read-only view path.
    pub fn new_flat_state_for_shard(
        &self,
        shard_id: u32,
        block_hash: Option<CryptoHash>,
        is_view: bool,
    ) -> (r: Option<FlatState>)
        ensures
            (self.enabled && !is_view) ==> (r matches Some(f) && f.shard_id == shard_id
                && f.block_hash == block_hash),
            !(self.enabled && !is_view) ==> r is None,
    {
        if self.enabled && !is_view {
            Some(FlatState { shard_id, block_hash })
        } else {
            None
        }
    }
}

} // verus!
