use near_store::change_log::KeyForStateChanges;
use near_store::db::{DBCol, Store, StoreUpdate};
use near_store::hash::CryptoHash;
use near_store::shard_uid::ShardUId;
use near_store::shard_tries::WrappedTrieChanges;
use near_store::state_changes::{
    decode_state_changes, encode_state_changes, RawStateChange, RawStateChangesWithTrieKey,
    StateChangeCause,
};
use near_store::trie::TrieChanges;
use near_store::trie_key::TrieKey;

fn hash_of(byte: u8) -> CryptoHash {
    CryptoHash::new(vec![byte; 32]).unwrap()
}

fn account_record(account_id: &[u8], data: &[u8]) -> RawStateChangesWithTrieKey {
    RawStateChangesWithTrieKey {
        trie_key: TrieKey::Account { account_id: account_id.to_vec() },
        changes: vec![RawStateChange {
            cause: StateChangeCause::TransactionProcessing,
            data: Some(data.to_vec()),
        }],
    }
}

fn empty_trie_changes() -> TrieChanges {
    TrieChanges { insertions: vec![], deletions: vec![], new_root: hash_of(0) }
}

fn shard0() -> ShardUId {
    ShardUId { version: 0, shard_id: 0 }
}

#[test]
fn record_codec_round_trips() {
    let record = RawStateChangesWithTrieKey {
        trie_key: TrieKey::AccessKey {
            account_id: b"alice".to_vec(),
            public_key: vec![7, 8, 9],
        },
        changes: vec![
            RawStateChange { cause: StateChangeCause::InitialState, data: None },
            RawStateChange {
                cause: StateChangeCause::ReceiptProcessing,
                data: Some(vec![1, 2, 3]),
            },
        ],
    };
    let bytes = encode_state_changes(&record);
    let decoded = decode_state_changes(&bytes).unwrap();
    assert_eq!(decoded.trie_key.to_vec(), record.trie_key.to_vec());
    assert_eq!(decoded.changes.len(), 2);
    assert_eq!(decoded.changes[0].cause, StateChangeCause::InitialState);
    assert_eq!(decoded.changes[0].data, None);
    assert_eq!(decoded.changes[1].cause, StateChangeCause::ReceiptProcessing);
    assert_eq!(decoded.changes[1].data, Some(vec![1, 2, 3]));
}

#[test]
fn corrupt_record_is_rejected() {
    let err = decode_state_changes(&vec![250, 1, 2]).unwrap_err();
    assert_eq!(err, near_store::errors::StoreError::CorruptChangeRecord);
    // A truncated but well-started value is rejected too.
    let record = account_record(b"alice", b"value");
    let mut bytes = encode_state_changes(&record);
    bytes.pop();
    assert!(decode_state_changes(&bytes).is_err());
    // Trailing garbage is rejected: the bytes must be consumed exactly.
    let mut padded = encode_state_changes(&record);
    padded.push(0);
    assert!(decode_state_changes(&padded).is_err());
}

#[test]
fn trie_key_encodings() {
    let account = TrieKey::Account { account_id: b"alice".to_vec() };
    let mut expected = vec![0u8];
    expected.extend_from_slice(b"alice");
    assert_eq!(account.to_vec(), expected);
    assert_eq!(account.len(), 6);
    let data = TrieKey::ContractData { account_id: b"alice".to_vec(), key: vec![9] };
    let mut expected = vec![9u8];
    expected.extend_from_slice(b"alice");
    expected.push(0x2c);
    expected.push(9);
    assert_eq!(data.to_vec(), expected);
    assert!(account.is_logged());
    assert!(data.is_logged());
    assert!(!TrieKey::DelayedReceiptIndices.is_logged());
    assert!(!(TrieKey::DelayedReceipt { index: 4 }).is_logged());
}

#[test]
fn key_for_state_changes_is_prefix_plus_trie_key() {
    let block_hash = hash_of(0x11);
    let trie_key = TrieKey::Account { account_id: b"alice".to_vec() };
    let key = KeyForStateChanges::from_trie_key(&block_hash, &trie_key);
    let mut expected = block_hash.as_bytes().clone();
    expected.extend_from_slice(&trie_key.to_vec());
    assert_eq!(key.as_bytes(), &expected);
    let for_block = KeyForStateChanges::for_block(&block_hash);
    assert_eq!(for_block.as_bytes(), block_hash.as_bytes());
    let raw = KeyForStateChanges::from_raw_key(&block_hash, &[1, 2]);
    let mut expected = block_hash.as_bytes().clone();
    expected.extend_from_slice(&[1, 2]);
    assert_eq!(raw.into_bytes(), expected);
}

#[test]
fn state_changes_into_writes_logged_kinds_and_drains() {
    let block_hash = hash_of(0x22);
    let records = vec![
        account_record(b"alice", b"v1"),
        RawStateChangesWithTrieKey {
            trie_key: TrieKey::DelayedReceiptIndices,
            changes: vec![RawStateChange {
                cause: StateChangeCause::UpdatedDelayedReceipts,
                data: None,
            }],
        },
    ];
    let mut wrapped = WrappedTrieChanges::new(shard0(), empty_trie_changes(), records, block_hash);
    assert_eq!(wrapped.state_changes().len(), 2);
    let mut update = StoreUpdate::new();
    wrapped.state_changes_into(&mut update);
    // Drained; only the account-scoped record was written.
    assert_eq!(wrapped.state_changes().len(), 0);
    assert_eq!(update.transaction.ops.len(), 1);
    // Re-flushing after the drain writes nothing.
    let mut update_two = StoreUpdate::new();
    wrapped.state_changes_into(&mut update_two);
    assert_eq!(update_two.transaction.ops.len(), 0);
}

#[test]
fn find_iter_returns_logged_record_and_misses_other_block() {
    let block_hash = hash_of(0x33);
    let other_block = hash_of(0x44);
    let records = vec![account_record(b"alice", b"v1")];
    let mut wrapped =
        WrappedTrieChanges::new(shard0(), empty_trie_changes(), records, block_hash.clone());
    let mut update = StoreUpdate::new();
    wrapped.state_changes_into(&mut update);
    let mut store = Store::new();
    store.commit(update.into_transaction());
    // The block-scoped scan returns the record.
    let found = KeyForStateChanges::for_block(&block_hash).find_iter(&store);
    assert_eq!(found.len(), 1);
    let record = found.into_iter().next().unwrap().unwrap();
    assert_eq!(
        record.trie_key.to_vec(),
        TrieKey::Account { account_id: b"alice".to_vec() }.to_vec()
    );
    assert_eq!(record.changes[0].data, Some(b"v1".to_vec()));
    // The exact-match query under a block with no writes returns empty.
    let trie_key = TrieKey::Account { account_id: b"alice".to_vec() };
    let missed = KeyForStateChanges::from_trie_key(&other_block, &trie_key).find_exact_iter(&store);
    assert_eq!(missed.len(), 0);
}

#[test]
fn find_exact_iter_filters_prefix_sibling() {
    let block_hash = hash_of(0x55);
    // "alice" is a byte-prefix of "alice.near", so the sibling entry
    // survives the prefix scan and must be dropped by the length filter.
    let records = vec![
        account_record(b"alice", b"short"),
        account_record(b"alice.near", b"long"),
    ];
    let mut wrapped =
        WrappedTrieChanges::new(shard0(), empty_trie_changes(), records, block_hash.clone());
    let mut update = StoreUpdate::new();
    wrapped.state_changes_into(&mut update);
    let mut store = Store::new();
    store.commit(update.into_transaction());
    let trie_key = TrieKey::Account { account_id: b"alice".to_vec() };
    let key = KeyForStateChanges::from_trie_key(&block_hash, &trie_key);
    // The plain prefix scan sees both entries.
    assert_eq!(key.find_iter(&store).len(), 2);
    // The exact-match query returns only the entry for the queried key.
    let exact = key.find_exact_iter(&store);
    assert_eq!(exact.len(), 1);
    let record = exact.into_iter().next().unwrap().unwrap();
    assert_eq!(record.trie_key.to_vec(), trie_key.to_vec());
    assert_eq!(record.changes[0].data, Some(b"short".to_vec()));
}

#[test]
fn trie_changes_into_writes_block_shard_slot() {
    let block_hash = hash_of(0x66);
    let wrapped =
        WrappedTrieChanges::new(shard0(), empty_trie_changes(), vec![], block_hash.clone());
    let mut update = StoreUpdate::new();
    wrapped.trie_changes_into(&mut update);
    let mut store = Store::new();
    store.commit(update.into_transaction());
    let key = near_store::shard_uid::get_block_shard_uid(&block_hash, &shard0());
    assert!(store.get(DBCol::TrieChanges, key.as_slice()).is_some());
    assert!(store.get(DBCol::TrieChanges, &key[..10]).is_none());
}
