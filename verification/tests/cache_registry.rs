use near_store::config::TrieConfig;
use near_store::db::{DBCol, DBOp, DBTransaction};
use near_store::flat_state::FlatStateFactory;
use near_store::hash::CryptoHash;
use near_store::shard_uid::ShardUId;
use near_store::shard_tries::ShardTries;
use near_store::trie_storage::TrieCachingStorage;

fn hash_of(byte: u8) -> CryptoHash {
    CryptoHash::new(vec![byte; 32]).unwrap()
}

fn shard(shard_id: u32) -> ShardUId {
    ShardUId { version: 0, shard_id }
}

fn increment_op(uid: ShardUId, hash_byte: u8, bytes: &[u8]) -> DBOp {
    DBOp::IncrementRefcount {
        col: DBCol::State,
        key: TrieCachingStorage::get_key_from_shard_uid_and_hash(uid, &hash_of(hash_byte)),
        value: bytes.to_vec(),
        rc: 1,
    }
}

#[test]
fn update_cache_populates_client_cache() {
    let mut tries = ShardTries::test(2);
    let transaction = DBTransaction { ops: vec![increment_op(shard(0), 5, b"node-five")] };
    tries.update_cache(&transaction).unwrap();
    let cache = tries.resolve_cache(shard(0), false);
    assert_eq!(cache.get(&hash_of(5)).unwrap(), b"node-five".to_vec());
    assert_eq!(cache.len(), 1);
    // The other shard's cache is untouched.
    let other = tries.resolve_cache(shard(1), false);
    assert!(other.get(&hash_of(5)).is_none());
}

#[test]
fn decrement_drops_cached_node() {
    let mut tries = ShardTries::test(1);
    let fill = DBTransaction { ops: vec![increment_op(shard(0), 5, b"node-five")] };
    tries.update_cache(&fill).unwrap();
    let drop_op = DBOp::DecrementRefcount {
        col: DBCol::State,
        key: TrieCachingStorage::get_key_from_shard_uid_and_hash(shard(0), &hash_of(5)),
        rc: 1,
    };
    let transaction = DBTransaction { ops: vec![drop_op] };
    tries.update_cache(&transaction).unwrap();
    let cache = tries.resolve_cache(shard(0), false);
    assert!(cache.get(&hash_of(5)).is_none());
}

#[test]
fn client_write_is_invisible_to_view_cache() {
    let mut tries = ShardTries::test(1);
    let transaction = DBTransaction { ops: vec![increment_op(shard(0), 5, b"node-five")] };
    tries.update_cache(&transaction).unwrap();
    // The client cache observes the write; the view cache misses.
    let client = tries.resolve_cache(shard(0), false);
    assert!(client.get(&hash_of(5)).is_some());
    let view = tries.resolve_cache(shard(0), true);
    assert!(view.get(&hash_of(5)).is_none());
}

#[test]
fn delete_all_clears_every_client_cache_keeping_shards() {
    let mut tries = ShardTries::test(2);
    let fill = DBTransaction {
        ops: vec![increment_op(shard(0), 5, b"node-five"), increment_op(shard(1), 6, b"node-six")],
    };
    tries.update_cache(&fill).unwrap();
    assert_eq!(tries.resolve_cache(shard(0), false).len(), 1);
    assert_eq!(tries.resolve_cache(shard(1), false).len(), 1);
    let shard_count = tries.num_caches(false);
    let reset = DBTransaction { ops: vec![DBOp::DeleteAll { col: DBCol::State }] };
    tries.update_cache(&reset).unwrap();
    // Every previously populated cache is empty, the shard set unchanged.
    assert_eq!(tries.num_caches(false), shard_count);
    assert_eq!(tries.resolve_cache(shard(0), false).len(), 0);
    assert_eq!(tries.resolve_cache(shard(1), false).len(), 0);
}

#[test]
fn delete_all_on_other_column_clears_nothing() {
    let mut tries = ShardTries::test(1);
    let fill = DBTransaction { ops: vec![increment_op(shard(0), 5, b"node-five")] };
    tries.update_cache(&fill).unwrap();
    let reset = DBTransaction { ops: vec![DBOp::DeleteAll { col: DBCol::StateChanges }] };
    tries.update_cache(&reset).unwrap();
    assert_eq!(tries.resolve_cache(shard(0), false).len(), 1);
}

#[test]
fn prefetcher_attaches_only_for_eligible_client_mode() {
    let config = TrieConfig {
        enable_receipt_prefetching: false,
        prefetch_senders: vec![b"sender.near".to_vec()],
        prefetch_receivers: vec![b"receiver.near".to_vec()],
    };
    let uids = [shard(0)];
    let mut tries = ShardTries::new(config, &uids, FlatStateFactory::new(false));
    let trie = tries.get_trie_for_shard(shard(0), hash_of(1));
    assert!(trie.storage.prefetch_api.is_some());
    assert_eq!(trie.storage.prefetch_api.unwrap().shard_uid, shard(0));
    // A view-mode resolution of the same shard never attaches one.
    let view_trie = tries.get_view_trie_for_shard(shard(0), hash_of(1));
    assert!(view_trie.storage.prefetch_api.is_none());
}

#[test]
fn prefetcher_needs_both_allow_lists() {
    let config = TrieConfig {
        enable_receipt_prefetching: false,
        prefetch_senders: vec![b"sender.near".to_vec()],
        prefetch_receivers: vec![],
    };
    let uids = [shard(0)];
    let mut tries = ShardTries::new(config, &uids, FlatStateFactory::new(false));
    let trie = tries.get_trie_for_shard(shard(0), hash_of(1));
    assert!(trie.storage.prefetch_api.is_none());
}

#[test]
fn default_test_tries_never_prefetch() {
    let mut tries = ShardTries::test_shard_version(1, 2);
    let trie = tries.get_trie_for_shard(ShardUId { version: 1, shard_id: 0 }, hash_of(1));
    assert!(trie.storage.prefetch_api.is_none());
    assert!(trie.flat_state.is_none());
    assert!(!trie.storage.is_view);
    assert!(trie.state_root.equals(&hash_of(1)));
}

#[test]
fn resolving_twice_observes_identical_content() {
    let mut tries = ShardTries::test(1);
    let fill = DBTransaction { ops: vec![increment_op(shard(0), 5, b"node-five")] };
    tries.update_cache(&fill).unwrap();
    let first = tries.resolve_cache(shard(0), false);
    let second = tries.resolve_cache(shard(0), false);
    assert_eq!(first.len(), second.len());
    assert_eq!(first.get(&hash_of(5)), second.get(&hash_of(5)));
    // Resolving a shard outside the initial set creates it empty, once.
    let count_before = tries.num_caches(false);
    let fresh_one = tries.resolve_cache(shard(9), false);
    let fresh_two = tries.resolve_cache(shard(9), false);
    assert_eq!(fresh_one.len(), 0);
    assert_eq!(fresh_two.len(), 0);
    assert_eq!(tries.num_caches(false), count_before + 1);
}

#[test]
fn repeated_write_replaces_cached_bytes() {
    let mut tries = ShardTries::test(1);
    let fill = DBTransaction { ops: vec![increment_op(shard(0), 5, b"old-bytes")] };
    tries.update_cache(&fill).unwrap();
    let overwrite = DBTransaction { ops: vec![increment_op(shard(0), 5, b"new-bytes")] };
    tries.update_cache(&overwrite).unwrap();
    let cache = tries.resolve_cache(shard(0), false);
    assert_eq!(cache.len(), 1);
    assert_eq!(cache.get(&hash_of(5)).unwrap(), b"new-bytes".to_vec());
}

#[test]
fn trie_update_wraps_trie_for_shard() {
    let mut tries = ShardTries::test(1);
    let update = tries.new_trie_update(shard(0), hash_of(2));
    assert!(!update.trie.storage.is_view);
    assert_eq!(update.trie.storage.shard_uid, shard(0));
    let view_update = tries.new_trie_update_view(shard(0), hash_of(2));
    assert!(view_update.trie.storage.is_view);
}

#[test]
fn block_hash_reaches_flat_state() {
    let uids = [shard(0)];
    let mut tries = ShardTries::new(TrieConfig::default(), &uids, FlatStateFactory::new(true));
    let block_hash = hash_of(7);
    let trie = tries.get_trie_with_block_hash_for_shard(shard(0), hash_of(1), &block_hash);
    let flat = trie.flat_state.unwrap();
    assert_eq!(flat.shard_id, 0);
    assert!(flat.block_hash.unwrap().equals(&block_hash));
}
