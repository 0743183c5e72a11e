//! Versioned shard identifiers and their byte encodings.

use vstd::prelude::*;
use vstd::bytes::{lemma_auto_spec_u32_to_from_le_bytes, spec_u32_to_le_bytes, u32_to_le_bytes};
use crate::hash::{CryptoHash, HASH_LEN};

verus! {

/// Number of bytes in the encoding of a [`ShardUId`].
pub const SHARD_UID_LEN: usize = 8;

/// Identity key for all per-shard state: a shard number together with the
/// version of the shard layout that produced it.
///
/// Immutable, copyable and totally ordered, so it can key the cache and
/// prefetcher registries.
#[derive(Clone, Copy, Debug, PartialEq, Eq, Structural, Hash, PartialOrd, Ord)]
pub struct ShardUId {
    pub version: u32,
    pub shard_id: u32,
}

/// The 8-byte encoding of a shard identifier: the layout version in
/// little-endian order, then the shard number.
pub open spec fn spec_shard_uid_bytes(uid: ShardUId) -> Seq<u8> {
    spec_u32_to_le_bytes(uid.version) + spec_u32_to_le_bytes(uid.shard_id)
}

/// The encoding is injective: distinct identifiers encode to distinct bytes.
pub proof fn lemma_shard_uid_bytes_injective(a: ShardUId, b: ShardUId)
    ensures
        spec_shard_uid_bytes(a) == spec_shard_uid_bytes(b) ==> a == b,
{
    lemma_auto_spec_u32_to_from_le_bytes();
    if spec_shard_uid_bytes(a) == spec_shard_uid_bytes(b) {
        assert(spec_u32_to_le_bytes(a.version) =~= spec_shard_uid_bytes(a).subrange(0, 4));
        assert(spec_u32_to_le_bytes(a.shard_id) =~= spec_shard_uid_bytes(a).subrange(4, 8));
        assert(spec_u32_to_le_bytes(b.version) =~= spec_shard_uid_bytes(b).subrange(0, 4));
        assert(spec_u32_to_le_bytes(b.shard_id) =~= spec_shard_uid_bytes(b).subrange(4, 8));
    }
}

impl ShardUId {
    /// Encodes the identifier as its 8 key bytes.
    pub fn to_bytes(&self) -> (r: Vec<u8>)
        ensures
            r@ == spec_shard_uid_bytes(*self),
            r@.len() == SHARD_UID_LEN,
    {
        let mut r = u32_to_le_bytes(self.version);
        let mut tail = u32_to_le_bytes(self.shard_id);
        r.append(&mut tail);
        proof {
            assert(r@ =~= spec_shard_uid_bytes(*self));
        }
        r
    }
}

/// The key under which a block's trie diff is stored: the block hash followed
/// by the shard identifier's bytes.
pub open spec fn spec_block_shard_uid_bytes(block_hash: Seq<u8>, uid: ShardUId) -> Seq<u8> {
    block_hash + spec_shard_uid_bytes(uid)
}

/// Builds the storage key that scopes a per-block, per-shard record.
pub fn get_block_shard_uid(block_hash: &CryptoHash, shard_uid: &ShardUId) -> (r: Vec<u8>)
    ensures
        r@ == spec_block_shard_uid_bytes(block_hash@, *shard_uid),
        r@.len() == HASH_LEN + SHARD_UID_LEN,
{
    let mut r = vstd::slice::slice_to_vec(block_hash.as_bytes().as_slice());
    let mut tail = shard_uid.to_bytes();
    r.append(&mut tail);
    proof {
        assert(r@ =~= spec_block_shard_uid_bytes(block_hash@, *shard_uid));
    }
    r
}

} // verus!
