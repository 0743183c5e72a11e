//! Configuration of the trie caches and of receipt prefetching.

use vstd::prelude::*;

verus! {

/// Tuning switches for per-shard caches and prefetching.
///
/// Prefetching is eligible either when globally enabled for receipts, or when
/// both the sender and the receiver allow-lists are non-empty.
#[derive(Debug)]
pub struct TrieConfig {
    /// Turns receipt prefetching on for every shard.
    pub enable_receipt_prefetching: bool,
    /// Accounts whose outgoing receipts may be prefetched.
    pub prefetch_senders: Vec<Vec<u8>>,
    /// Accounts whose incoming receipts may be prefetched.
    pub prefetch_receivers: Vec<Vec<u8>>,
}

/// The configuration predicate that gates prefetching: the global flag, or
/// both allow-lists non-empty.
pub open spec fn spec_prefetch_eligible(c: &TrieConfig) -> bool {
    ||| c.enable_receipt_prefetching
    ||| (c.prefetch_receivers@.len() > 0 && c.prefetch_senders@.len() > 0)
}

impl TrieConfig {
    /// Whether this configuration allows prefetching at all.
    pub fn prefetch_eligible(&self) -> (r: bool)
        ensures
            r == spec_prefetch_eligible(self),
    {
        self.enable_receipt_prefetching || (!self.prefetch_receivers.is_empty()
            && !self.prefetch_senders.is_empty())
    }
}

impl Default for TrieConfig {
    /// The default configuration prefetches nothing.
    fn default() -> (r: TrieConfig)
        ensures
            !r.enable_receipt_prefetching,
            r.prefetch_senders@.len() == 0,
            r.prefetch_receivers@.len() == 0,
    {
        TrieConfig {
            enable_receipt_prefetching: false,
            prefetch_senders: Vec::new(),
            prefetch_receivers: Vec::new(),
        }
    }
}

} // verus!
