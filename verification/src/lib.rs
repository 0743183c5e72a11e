//! Sharded, reference-counted trie-node storage.
//!
//! The crate sits between a blockchain node's state-transition logic and its
//! persistent key-value store.  It owns the per-shard cache registries (one for
//! read-write client access, one for read-only view access), the protocol that
//! turns a computed trie diff into atomic, reversible refcount operations
//! against the node-storage column, the wiring of per-shard prefetchers, and a
//! block-scoped index over account-level state changes.

pub mod bytes;
pub mod change_log;
pub mod config;
pub mod db;
pub mod errors;
pub mod flat_state;
pub mod hash;
pub mod metrics;
pub mod peer_message;
pub mod prefetch;
pub mod shard_tries;
pub mod state_changes;
pub mod shard_uid;
pub mod trie;
pub mod trie_key;
pub mod trie_storage;
