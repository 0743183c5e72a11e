//! Trie keys: the typed keys under which account-level state lives in a trie.
//!
//! A trie key has a canonical byte encoding: a column tag, then the key's
//! fields, with the separators the storage layout fixes.  The change-log index
//! appends this encoding to a block-hash prefix.

use vstd::prelude::*;
use vstd::bytes::{spec_u64_to_le_bytes, u64_to_le_bytes};
use crate::bytes::extend_bytes;

verus! {

/// Column tag of an account record.
pub const COL_ACCOUNT: u8 = 0;
/// Column tag of a contract-code record.
pub const COL_CONTRACT_CODE: u8 = 1;
/// Column tag of an access-key record; it doubles as the separator between
/// the account and the public key.
pub const COL_ACCESS_KEY: u8 = 2;
/// Column tag of the delayed-receipt-indices record.
pub const COL_DELAYED_RECEIPT_INDICES: u8 = 7;
/// Column tag of a delayed-receipt record.
pub const COL_DELAYED_RECEIPT: u8 = 8;
/// Column tag of a contract-data record.
pub const COL_CONTRACT_DATA: u8 = 9;
/// Separator between an account and the data key in a contract-data key.
pub const ACCOUNT_DATA_SEPARATOR: u8 = 0x2c;

/// A typed key into a shard's state trie.
///
/// The first four kinds are account-scoped and are the only ones the change
/// log records for user-facing queries; the delayed-receipt kinds stand for
/// the internal bookkeeping keys that are skipped when flushing the log.
#[derive(Debug)]
pub enum TrieKey {
    Account { account_id: Vec<u8> },
    ContractCode { account_id: Vec<u8> },
    AccessKey { account_id: Vec<u8>, public_key: Vec<u8> },
    ContractData { account_id: Vec<u8>, key: Vec<u8> },
    DelayedReceiptIndices,
    DelayedReceipt { index: u64 },
}

/// The mathematical shape of a trie key: the same variants over byte
/// sequences.
pub enum TrieKeyView {
    Account { account_id: Seq<u8> },
    ContractCode { account_id: Seq<u8> },
    AccessKey { account_id: Seq<u8>, public_key: Seq<u8> },
    ContractData { account_id: Seq<u8>, key: Seq<u8> },
    DelayedReceiptIndices,
    DelayedReceipt { index: u64 },
}

impl View for TrieKey {
    type V = TrieKeyView;

    open spec fn view(&self) -> TrieKeyView {
        match self {
            TrieKey::Account { account_id } => TrieKeyView::Account { account_id: account_id@ },
            TrieKey::ContractCode { account_id } => TrieKeyView::ContractCode {
                account_id: account_id@,
            },
            TrieKey::AccessKey { account_id, public_key } => TrieKeyView::AccessKey {
                account_id: account_id@,
                public_key: public_key@,
            },
            TrieKey::ContractData { account_id, key } => TrieKeyView::ContractData {
                account_id: account_id@,
                key: key@,
            },
            TrieKey::DelayedReceiptIndices => TrieKeyView::DelayedReceiptIndices,
            TrieKey::DelayedReceipt { index } => TrieKeyView::DelayedReceipt { index: *index },
        }
    }
}

/// The canonical byte encoding of a trie key.
pub open spec fn spec_trie_key_bytes(k: TrieKeyView) -> Seq<u8> {
    match k {
        TrieKeyView::Account { account_id } => seq![COL_ACCOUNT] + account_id,
        TrieKeyView::ContractCode { account_id } => seq![COL_CONTRACT_CODE] + account_id,
        TrieKeyView::AccessKey { account_id, public_key } => seq![COL_ACCESS_KEY] + account_id
            + seq![COL_ACCESS_KEY] + public_key,
        TrieKeyView::ContractData { account_id, key } => seq![COL_CONTRACT_DATA] + account_id
            + seq![ACCOUNT_DATA_SEPARATOR] + key,
        TrieKeyView::DelayedReceiptIndices => seq![COL_DELAYED_RECEIPT_INDICES],
        TrieKeyView::DelayedReceipt { index } => seq![COL_DELAYED_RECEIPT] + spec_u64_to_le_bytes(
            index,
        ),
    }
}

/// The four account-scoped kinds are the ones the change log records.
pub open spec fn spec_is_logged(k: TrieKeyView) -> bool {
    ||| k is Account
    ||| k is ContractCode
    ||| k is AccessKey
    ||| k is ContractData
}

impl TrieKey {
    /// Whether this key's kind is recorded in the change log.
    pub fn is_logged(&self) -> (r: bool)
        ensures
            r == spec_is_logged(self@),
    {
        match self {
            TrieKey::Account { .. } => true,
            TrieKey::ContractCode { .. } => true,
            TrieKey::AccessKey { .. } => true,
            TrieKey::ContractData { .. } => true,
            TrieKey::DelayedReceiptIndices => false,
            TrieKey::DelayedReceipt { .. } => false,
        }
    }

    /// Appends the key's canonical encoding to `buf`.
    pub fn append_into(&self, buf: &mut Vec<u8>)
        ensures
            final(buf)@ == old(buf)@ + spec_trie_key_bytes(self@),
    {
        match self {
            TrieKey::Account { account_id } => {
                buf.push(COL_ACCOUNT);
                extend_bytes(buf, account_id.as_slice());
                proof {
                    assert(buf@ =~= old(buf)@ + spec_trie_key_bytes(self@));
                }
            },
            TrieKey::ContractCode { account_id } => {
                buf.push(COL_CONTRACT_CODE);
                extend_bytes(buf, account_id.as_slice());
                proof {
                    assert(buf@ =~= old(buf)@ + spec_trie_key_bytes(self@));
                }
            },
            TrieKey::AccessKey { account_id, public_key } => {
                buf.push(COL_ACCESS_KEY);
                extend_bytes(buf, account_id.as_slice());
                buf.push(COL_ACCESS_KEY);
                extend_bytes(buf, public_key.as_slice());
                proof {
                    assert(buf@ =~= old(buf)@ + spec_trie_key_bytes(self@));
                }
            },
            TrieKey::ContractData { account_id, key } => {
                buf.push(COL_CONTRACT_DATA);
                extend_bytes(buf, account_id.as_slice());
                buf.push(ACCOUNT_DATA_SEPARATOR);
                extend_bytes(buf, key.as_slice());
                proof {
                    assert(buf@ =~= old(buf)@ + spec_trie_key_bytes(self@));
                }
            },
            TrieKey::DelayedReceiptIndices => {
                buf.push(COL_DELAYED_RECEIPT_INDICES);
                proof {
                    assert(buf@ =~= old(buf)@ + spec_trie_key_bytes(self@));
                }
            },
            TrieKey::DelayedReceipt { index } => {
                buf.push(COL_DELAYED_RECEIPT);
                let mut tail = u64_to_le_bytes(*index);
                buf.append(&mut tail);
                proof {
                    assert(buf@ =~= old(buf)@ + spec_trie_key_bytes(self@));
                }
            },
        }
    }

    /// The key's canonical encoding as a fresh vector.
    pub fn to_vec(&self) -> (r: Vec<u8>)
        ensures
            r@ == spec_trie_key_bytes(self@),
    {
        let mut r: Vec<u8> = Vec::new();
        self.append_into(&mut r);
        proof {
            assert(r@ =~= spec_trie_key_bytes(self@));
        }
        r
    }

    /// The length of the key's canonical encoding.
    pub fn len(&self) -> (r: usize)
        ensures
            r == spec_trie_key_bytes(self@).len(),
    {
        let v = self.to_vec();
        v.len()
    }
}

} // verus!
