//! Per-shard prefetcher handles.
//!
//! The worker pool that actually issues reads is a collaborator; this layer
//! only creates, caches and hands out the per-shard handle, and only for
//! client-mode access under an eligible configuration.

use vstd::prelude::*;
use crate::config::TrieConfig;
use crate::shard_uid::ShardUId;

verus! {

/// A handle through which trie reads for one shard can be pre-issued ahead
/// of traversal.
#[derive(Clone, Copy, Debug)]
pub struct PrefetchApi {
    pub shard_uid: ShardUId,
}

/// The handle that owns the prefetcher's worker threads; dropped only with
/// the registry that created it.
#[derive(Debug)]
pub struct PrefetchingThreadsHandle {
    pub shard_uid: ShardUId,
}

impl PrefetchApi {
    /// Starts the prefetcher of one shard: the handle to queue work on and
    /// the handle owning its workers.
    pub fn new(shard_uid: ShardUId, _config: &TrieConfig) -> (r: (
        PrefetchApi,
        PrefetchingThreadsHandle,
    ))
        ensures
            r.0.shard_uid == shard_uid,
            r.1.shard_uid == shard_uid,
    {
        (PrefetchApi { shard_uid }, PrefetchingThreadsHandle { shard_uid })
    }
}

} // verus!
