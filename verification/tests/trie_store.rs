use near_store::db::{DBCol, DBOp, DBTransaction, Store, StoreUpdate};
use near_store::hash::CryptoHash;
use near_store::shard_uid::ShardUId;
use near_store::trie::{TrieChanges, TrieRefcountChange};
use near_store::trie_storage::TrieCachingStorage;
use near_store::shard_tries::ShardTries;

fn hash_of(byte: u8) -> CryptoHash {
    CryptoHash::new(vec![byte; 32]).unwrap()
}

fn change(hash_byte: u8, bytes: &[u8], rc: u32) -> TrieRefcountChange {
    TrieRefcountChange {
        trie_node_or_value_hash: hash_of(hash_byte),
        trie_node_or_value: bytes.to_vec(),
        rc,
    }
}

fn shard0() -> ShardUId {
    ShardUId { version: 0, shard_id: 0 }
}

#[test]
fn state_key_round_trips() {
    let uid = ShardUId { version: 3, shard_id: 7 };
    let h = hash_of(0xab);
    let key = TrieCachingStorage::get_key_from_shard_uid_and_hash(uid, &h);
    assert_eq!(key.len(), 40);
    let (uid2, h2) = TrieCachingStorage::get_shard_uid_and_hash_from_key(key.as_slice()).unwrap();
    assert_eq!(uid2, uid);
    assert!(h2.equals(&h));
}

#[test]
fn state_key_rejects_wrong_length() {
    assert!(TrieCachingStorage::get_shard_uid_and_hash_from_key(&[0u8; 39]).is_err());
    assert!(TrieCachingStorage::get_shard_uid_and_hash_from_key(&[0u8; 41]).is_err());
}

#[test]
fn shard_uid_bytes_layout() {
    let uid = ShardUId { version: 1, shard_id: 2 };
    assert_eq!(uid.to_bytes(), vec![1, 0, 0, 0, 2, 0, 0, 0]);
}

#[test]
fn apply_all_orders_increments_before_decrements() {
    let tries = ShardTries::test(1);
    let changes = TrieChanges {
        insertions: vec![change(1, b"node-a", 1), change(2, b"node-b", 2)],
        deletions: vec![change(3, b"node-c", 1)],
        new_root: hash_of(9),
    };
    let (update, root) = tries.apply_all(&changes, shard0());
    assert!(root.equals(&hash_of(9)));
    let ops = update.into_transaction().ops;
    assert_eq!(ops.len(), 3);
    assert!(matches!(ops[0], DBOp::IncrementRefcount { .. }));
    assert!(matches!(ops[1], DBOp::IncrementRefcount { .. }));
    assert!(matches!(ops[2], DBOp::DecrementRefcount { .. }));
}

#[test]
fn commit_applies_refcounts() {
    let tries = ShardTries::test(1);
    let changes = TrieChanges {
        insertions: vec![change(1, b"node-a", 2)],
        deletions: vec![],
        new_root: hash_of(9),
    };
    let (update, _) = tries.apply_all(&changes, shard0());
    let mut store = Store::new();
    store.commit(update.into_transaction());
    let key = TrieCachingStorage::get_key_from_shard_uid_and_hash(shard0(), &hash_of(1));
    assert_eq!(store.get_state_rc(key.as_slice()), 2);
    assert_eq!(store.get(DBCol::State, key.as_slice()).unwrap(), b"node-a".to_vec());
}

#[test]
fn revert_then_apply_restores_refcounts() {
    let tries = ShardTries::test(1);
    let mut tries = tries;
    let changes = TrieChanges {
        insertions: vec![change(1, b"node-a", 2), change(2, b"node-b", 1)],
        deletions: vec![],
        new_root: hash_of(9),
    };
    // Apply the insertions once, so the store holds live counts.
    let mut store = Store::new();
    let mut setup = StoreUpdate::new();
    tries.apply_insertions(&changes, shard0(), &mut setup);
    store.commit(setup.into_transaction());
    let key_a = TrieCachingStorage::get_key_from_shard_uid_and_hash(shard0(), &hash_of(1));
    let key_b = TrieCachingStorage::get_key_from_shard_uid_and_hash(shard0(), &hash_of(2));
    let rc_a = store.get_state_rc(key_a.as_slice());
    let rc_b = store.get_state_rc(key_b.as_slice());
    assert_eq!((rc_a, rc_b), (2, 1));
    // Revert the insertions, then apply them again: counts round-trip.
    let mut round_trip = StoreUpdate::new();
    tries.revert_insertions(&changes, shard0(), &mut round_trip);
    tries.apply_insertions(&changes, shard0(), &mut round_trip);
    store.commit(round_trip.into_transaction());
    assert_eq!(store.get_state_rc(key_a.as_slice()), rc_a);
    assert_eq!(store.get_state_rc(key_b.as_slice()), rc_b);
}

#[test]
fn deletions_remove_entries_at_zero() {
    let tries = ShardTries::test(1);
    let mut tries = tries;
    let changes = TrieChanges {
        insertions: vec![change(1, b"node-a", 1)],
        deletions: vec![],
        new_root: hash_of(9),
    };
    let mut store = Store::new();
    let mut setup = StoreUpdate::new();
    tries.apply_insertions(&changes, shard0(), &mut setup);
    store.commit(setup.into_transaction());
    let removal = TrieChanges {
        insertions: vec![],
        deletions: vec![change(1, b"node-a", 1)],
        new_root: hash_of(9),
    };
    let mut update = StoreUpdate::new();
    tries.apply_deletions(&removal, shard0(), &mut update);
    store.commit(update.into_transaction());
    let key = TrieCachingStorage::get_key_from_shard_uid_and_hash(shard0(), &hash_of(1));
    assert_eq!(store.get_state_rc(key.as_slice()), 0);
    assert!(store.get(DBCol::State, key.as_slice()).is_none());
}

#[test]
fn appliers_count_per_shard() {
    let mut tries = ShardTries::test(2);
    let changes = TrieChanges {
        insertions: vec![change(1, b"node-a", 1), change(2, b"node-b", 1)],
        deletions: vec![change(3, b"node-c", 1)],
        new_root: hash_of(9),
    };
    let mut update = StoreUpdate::new();
    tries.apply_insertions(&changes, shard0(), &mut update);
    tries.apply_deletions(&changes, shard0(), &mut update);
    tries.revert_insertions(&changes, shard0(), &mut update);
    let metrics = tries.metrics();
    assert_eq!(metrics.applied_trie_insertions.get(0), 2);
    assert_eq!(metrics.applied_trie_deletions.get(0), 1);
    assert_eq!(metrics.reverted_trie_insertions.get(0), 2);
    assert_eq!(metrics.applied_trie_insertions.get(1), 0);
}

#[test]
fn empty_changeset_builds_empty_batch() {
    let tries = ShardTries::test(1);
    let changes = TrieChanges { insertions: vec![], deletions: vec![], new_root: hash_of(4) };
    let (update, root) = tries.apply_all(&changes, shard0());
    assert!(root.equals(&hash_of(4)));
    assert_eq!(update.into_transaction().ops.len(), 0);
}

#[test]
fn update_cache_rejects_malformed_state_key() {
    let mut tries = ShardTries::test(1);
    let transaction = DBTransaction {
        ops: vec![DBOp::IncrementRefcount {
            col: DBCol::State,
            key: vec![1, 2, 3],
            value: b"node".to_vec(),
            rc: 1,
        }],
    };
    let err = tries.update_cache(&transaction).unwrap_err();
    assert_eq!(err, near_store::errors::StoreError::InvalidStateKey);
    assert!(!err.message().is_empty());
}

#[test]
fn equal_keys_accumulate_refcounts() {
    let mut store = Store::new();
    let mut update = StoreUpdate::new();
    let key = TrieCachingStorage::get_key_from_shard_uid_and_hash(shard0(), &hash_of(1));
    update.increment_refcount_by(DBCol::State, key.as_slice(), b"node", 2);
    update.increment_refcount_by(DBCol::State, key.as_slice(), b"node", 3);
    update.decrement_refcount_by(DBCol::State, key.as_slice(), 1);
    store.commit(update.into_transaction());
    assert_eq!(store.get_state_rc(key.as_slice()), 4);
}

#[test]
fn store_update_builds_ops_in_order() {
    let mut update = StoreUpdate::new();
    update.set(DBCol::TrieChanges, vec![1], vec![2]);
    update.increment_refcount_by(DBCol::State, &[0u8; 40], b"x", 1);
    update.decrement_refcount_by(DBCol::State, &[0u8; 40], 1);
    let ops = update.into_transaction().ops;
    assert!(matches!(ops[0], DBOp::Put { .. }));
    assert!(matches!(ops[1], DBOp::IncrementRefcount { .. }));
    assert!(matches!(ops[2], DBOp::DecrementRefcount { .. }));
}
