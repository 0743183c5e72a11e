//! The per-shard node cache and the storage adapter that tries read through.

use vstd::prelude::*;
use vstd::bytes::{spec_u32_from_le_bytes, u32_from_le_bytes, lemma_auto_spec_u32_to_from_le_bytes};
use vstd::slice::{slice_subrange, slice_to_vec};
use crate::bytes::extend_bytes;
use crate::config::TrieConfig;
use crate::db::{kv_views, spec_kv_delete, spec_kv_find, spec_kv_set, KvEntry, KvEntryView};
use crate::errors::StoreError;
use crate::hash::CryptoHash;
use crate::prefetch::PrefetchApi;
use crate::shard_uid::{spec_shard_uid_bytes, ShardUId};

verus! {

/// Length of a node-storage key: the shard identifier's bytes, then the
/// node or value hash.
pub const STATE_KEY_LEN: usize = 40;

/// An in-memory cache of trie nodes and values keyed by content hash,
/// scoped to one shard and one access mode.
///
/// The cache is only ever reached through the registry that owns it, so a
/// lookup never observes another shard's or the other access mode's entries.
#[derive(Debug)]
pub struct TrieCache {
    shard_uid: ShardUId,
    is_view: bool,
    entries: Vec<KvEntry>,
}

impl View for TrieCache {
    type V = Seq<KvEntryView>;

    closed spec fn view(&self) -> Seq<KvEntryView> {
        kv_views(self.entries@)
    }
}

/// One bulk-update element: the new bytes under a hash, or `None` to drop
/// the hash from the cache.
pub open spec fn spec_cache_apply_one(
    entries: Seq<KvEntryView>,
    hash: Seq<u8>,
    value: Option<Seq<u8>>,
) -> Seq<KvEntryView> {
    match value {
        Some(v) => spec_kv_set(entries, hash, v),
        None => spec_kv_delete(entries, hash),
    }
}

/// A whole bulk update, applied in order.
pub open spec fn spec_cache_apply(
    entries: Seq<KvEntryView>,
    ops: Seq<(Seq<u8>, Option<Seq<u8>>)>,
) -> Seq<KvEntryView>
    decreases ops.len(),
{
    if ops.len() == 0 {
        entries
    } else {
        spec_cache_apply_one(
            spec_cache_apply(entries, ops.drop_last()),
            ops.last().0,
            ops.last().1,
        )
    }
}

/// The view of one cache-update element.
pub open spec fn spec_cache_op_view(op: (CryptoHash, Option<Vec<u8>>)) -> (Seq<u8>, Option<
    Seq<u8>,
>) {
    (
        op.0@,
        match op.1 {
            Some(v) => Some(v@),
            None => None,
        },
    )
}

/// The views of a list of cache-update elements.
pub open spec fn spec_cache_op_views(ops: Seq<(CryptoHash, Option<Vec<u8>>)>) -> Seq<
    (Seq<u8>, Option<Seq<u8>>),
> {
    ops.map_values(|op: (CryptoHash, Option<Vec<u8>>)| spec_cache_op_view(op))
}

impl TrieCache {
    /// An empty cache for one shard and one access mode.  The configuration
    /// is what would size the cache; the model keeps every entry.
    pub fn new(_config: &TrieConfig, shard_uid: ShardUId, is_view: bool) -> (r: TrieCache)
        ensures
            r@ =~= Seq::<KvEntryView>::empty(),
            r.spec_shard_uid() == shard_uid,
            r.spec_is_view() == is_view,
    {
        TrieCache { shard_uid, is_view, entries: Vec::new() }
    }

    /// The shard this cache serves.
    pub closed spec fn spec_shard_uid(&self) -> ShardUId {
        self.shard_uid
    }

    /// Whether this cache serves the read-only view path.
    pub closed spec fn spec_is_view(&self) -> bool {
        self.is_view
    }

    /// The bytes cached under `hash`, if any.
    pub fn get(&self, hash: &CryptoHash) -> (r: Option<Vec<u8>>)
        ensures
            match r {
                Some(v) => spec_kv_find(self@, hash@) == Some(v@),
                None => spec_kv_find(self@, hash@) is None,
            },
    {
        cache_find(self.entries.as_slice(), hash.as_bytes().as_slice())
    }

    /// The number of cached entries.
    pub fn len(&self) -> (r: usize)
        ensures
            r == self@.len(),
    {
        proof {
            crate::db::lemma_kv_views(self.entries@);
        }
        self.entries.len()
    }

    /// Drops every entry; the cache's identity is unchanged.
    pub fn clear(&mut self)
        ensures
            final(self)@ =~= Seq::<KvEntryView>::empty(),
            final(self).spec_shard_uid() == old(self).spec_shard_uid(),
            final(self).spec_is_view() == old(self).spec_is_view(),
    {
        self.entries = Vec::new();
    }

    /// Applies a bulk update from a committed batch: `Some` bytes replace or
    /// create the entry under the hash, `None` drops it.
    pub fn update_cache(&mut self, ops: &Vec<(CryptoHash, Option<Vec<u8>>)>)
        ensures
            final(self)@ == spec_cache_apply(old(self)@, spec_cache_op_views(ops@)),
            final(self).spec_shard_uid() == old(self).spec_shard_uid(),
            final(self).spec_is_view() == old(self).spec_is_view(),
    {
        let ghost opvs = spec_cache_op_views(ops@);
        let mut i: usize = 0;
        let n = ops.len();
        while i < n
            invariant
                n == ops@.len(),
                i <= n,
                opvs == spec_cache_op_views(ops@),
                self@ == spec_cache_apply(old(self)@, opvs.subrange(0, i as int)),
                self.shard_uid == old(self).shard_uid,
                self.is_view == old(self).is_view,
            decreases n - i,
        {
            proof {
                assert(opvs.subrange(0, i + 1).drop_last() =~= opvs.subrange(0, i as int));
                assert(opvs.subrange(0, i + 1).last() == opvs[i as int]);
                assert(opvs[i as int] == spec_cache_op_view(ops@[i as int]));
            }
            let op = &ops[i];
            match &op.1 {
                Some(value) => {
                    let updated = cache_set(
                        self.entries.as_slice(),
                        op.0.as_bytes().as_slice(),
                        value.as_slice(),
                    );
                    self.entries = updated;
                },
                None => {
                    let updated = cache_delete(self.entries.as_slice(), op.0.as_bytes().as_slice());
                    self.entries = updated;
                },
            }
            i += 1;
        }
        proof {
            assert(opvs.subrange(0, opvs.len() as int) =~= opvs);
        }
    }
}

impl TrieCache {
    /// Stores `value` under `hash`.
    pub fn insert_value(&mut self, hash: &CryptoHash, value: &Vec<u8>)
        ensures
            final(self)@ == spec_kv_set(old(self)@, hash@, value@),
            final(self).spec_shard_uid() == old(self).spec_shard_uid(),
            final(self).spec_is_view() == old(self).spec_is_view(),
    {
        let updated = cache_set(
            self.entries.as_slice(),
            hash.as_bytes().as_slice(),
            value.as_slice(),
        );
        self.entries = updated;
    }

    /// Drops the entry under `hash`, if any.
    pub fn remove_value(&mut self, hash: &CryptoHash)
        ensures
            final(self)@ == spec_kv_delete(old(self)@, hash@),
            final(self).spec_shard_uid() == old(self).spec_shard_uid(),
            final(self).spec_is_view() == old(self).spec_is_view(),
    {
        let updated = cache_delete(self.entries.as_slice(), hash.as_bytes().as_slice());
        self.entries = updated;
    }

    /// A fresh, empty cache with this cache's identity.
    pub fn cleared_copy(&self) -> (r: TrieCache)
        ensures
            r@ =~= Seq::<KvEntryView>::empty(),
            r.spec_shard_uid() == self.spec_shard_uid(),
            r.spec_is_view() == self.spec_is_view(),
    {
        TrieCache { shard_uid: self.shard_uid, is_view: self.is_view, entries: Vec::new() }
    }
}

/// What a node-storage key parses to: its shard identifier and hash, when it
/// has the shard-and-hash shape.
pub open spec fn spec_parse_state_key(key: Seq<u8>) -> Option<(ShardUId, Seq<u8>)> {
    if key.len() == STATE_KEY_LEN {
        Some(
            (
                ShardUId {
                    version: spec_u32_from_le_bytes(key.subrange(0, 4)),
                    shard_id: spec_u32_from_le_bytes(key.subrange(4, 8)),
                },
                key.subrange(8, STATE_KEY_LEN as int),
            ),
        )
    } else {
        None
    }
}

impl Clone for TrieCache {
    /// A fresh handle observing the same content: the model's rendering of
    /// handing out a shared cache handle.
    fn clone(&self) -> (r: Self)
        ensures
            r@ == self@,
            r.spec_shard_uid() == self.spec_shard_uid(),
            r.spec_is_view() == self.spec_is_view(),
    {
        TrieCache {
            shard_uid: self.shard_uid,
            is_view: self.is_view,
            entries: cache_clone(self.entries.as_slice()),
        }
    }
}

/// A lookup over cache entries.
fn cache_find(s: &[KvEntry], key: &[u8]) -> (r: Option<Vec<u8>>)
    ensures
        match r {
            Some(v) => spec_kv_find(kv_views(s@), key@) == Some(v@),
            None => spec_kv_find(kv_views(s@), key@) is None,
        },
    decreases s@.len(),
{
    let ghost sv = kv_views(s@);
    if s.len() == 0 {
        None
    } else {
        let head = vstd::slice::slice_index_get(s, 0);
        let rest = slice_subrange(s, 1, s.len());
        proof {
            assert(kv_views(rest@) =~= sv.drop_first());
        }
        if crate::bytes::bytes_equal(head.key.as_slice(), key) {
            Some(slice_to_vec(head.value.as_slice()))
        } else {
            cache_find(rest, key)
        }
    }
}

/// A write over cache entries.
fn cache_set(s: &[KvEntry], key: &[u8], value: &[u8]) -> (r: Vec<KvEntry>)
    ensures
        kv_views(r@) == spec_kv_set(kv_views(s@), key@, value@),
    decreases s@.len(),
{
    let ghost sv = kv_views(s@);
    let entry = KvEntry { key: slice_to_vec(key), value: slice_to_vec(value) };
    if s.len() == 0 {
        let mut r: Vec<KvEntry> = Vec::new();
        r.push(entry);
        proof {
            assert(kv_views(r@) =~= spec_kv_set(sv, key@, value@));
        }
        r
    } else {
        let head = vstd::slice::slice_index_get(s, 0);
        let rest = slice_subrange(s, 1, s.len());
        proof {
            assert(kv_views(rest@) =~= sv.drop_first());
        }
        if crate::bytes::bytes_equal(head.key.as_slice(), key) {
            let mut r = cache_clone(rest);
            r.insert(0, entry);
            proof {
                assert(kv_views(r@) =~= spec_kv_set(sv, key@, value@));
            }
            r
        } else {
            let mut r = cache_set(rest, key, value);
            r.insert(0, head.clone());
            proof {
                assert(kv_views(r@) =~= spec_kv_set(sv, key@, value@));
            }
            r
        }
    }
}

/// A delete over cache entries.
fn cache_delete(s: &[KvEntry], key: &[u8]) -> (r: Vec<KvEntry>)
    ensures
        kv_views(r@) == spec_kv_delete(kv_views(s@), key@),
    decreases s@.len(),
{
    let ghost sv = kv_views(s@);
    if s.len() == 0 {
        let r: Vec<KvEntry> = Vec::new();
        proof {
            assert(kv_views(r@) =~= spec_kv_delete(sv, key@));
        }
        r
    } else {
        let head = vstd::slice::slice_index_get(s, 0);
        let rest = slice_subrange(s, 1, s.len());
        proof {
            assert(kv_views(rest@) =~= sv.drop_first());
        }
        let mut r = cache_delete(rest, key);
        if !crate::bytes::bytes_equal(head.key.as_slice(), key) {
            r.insert(0, head.clone());
        }
        proof {
            assert(kv_views(r@) =~= spec_kv_delete(sv, key@));
        }
        r
    }
}

/// A copy of cache entries.
fn cache_clone(s: &[KvEntry]) -> (r: Vec<KvEntry>)
    ensures
        kv_views(r@) == kv_views(s@),
{
    let mut r: Vec<KvEntry> = Vec::new();
    let mut i: usize = 0;
    while i < s.len()
        invariant
            i <= s@.len(),
            kv_views(r@) == kv_views(s@.subrange(0, i as int)),
        decreases s@.len() - i,
    {
        let e = vstd::slice::slice_index_get(s, i).clone();
        let ghost r_before = r@;
        r.push(e);
        proof {
            assert(e@ == s@[i as int]@);
            crate::db::lemma_kv_views(r_before);
            crate::db::lemma_kv_views(r@);
            crate::db::lemma_kv_views(s@.subrange(0, i as int));
            crate::db::lemma_kv_views(s@.subrange(0, i + 1));
            assert(r@.len() == i + 1);
            assert(kv_views(r@)[i as int] == kv_views(s@.subrange(0, i + 1))[i as int]);
            assert forall|j: int| 0 <= j < i implies kv_views(r@)[j] == kv_views(
                s@.subrange(0, i + 1),
            )[j] by {
                assert(r@[j] == r_before[j]);
                assert(kv_views(r_before)[j] == kv_views(s@.subrange(0, i as int))[j]);
                assert(kv_views(r@)[j] == r@[j]@);
                assert(s@.subrange(0, i as int)[j] == s@[j]);
                assert(s@.subrange(0, i + 1)[j] == s@[j]);
            }
            assert(kv_views(r@) =~= kv_views(s@.subrange(0, i + 1)));
        }
        i += 1;
    }
    proof {
        assert(s@.subrange(0, s@.len() as int) =~= s@);
    }
    r
}

/// The storage adapter a trie reads through: it serves node lookups from the
/// shard's cache of its access mode, falling back to the store, and hands
/// eligible reads to the prefetcher.  In this model it records the wiring;
/// the cache it addresses is the registry's entry for `(shard_uid, is_view)`.
#[derive(Debug)]
pub struct TrieCachingStorage {
    pub cache: TrieCache,
    pub shard_uid: ShardUId,
    pub is_view: bool,
    pub prefetch_api: Option<PrefetchApi>,
}

impl TrieCachingStorage {
    /// Wires a caching storage adapter for one shard and access mode, over
    /// the cache handle the registry resolved.
    pub fn new(
        cache: TrieCache,
        shard_uid: ShardUId,
        is_view: bool,
        prefetch_api: Option<PrefetchApi>,
    ) -> (r: TrieCachingStorage)
        ensures
            r.cache@ == cache@,
            r.shard_uid == shard_uid,
            r.is_view == is_view,
            r.prefetch_api == prefetch_api,
    {
        TrieCachingStorage { cache, shard_uid, is_view, prefetch_api }
    }

    /// The node-storage key of `(shard_uid, hash)`: the shard identifier's
    /// bytes, then the hash.
    pub fn get_key_from_shard_uid_and_hash(shard_uid: ShardUId, hash: &CryptoHash) -> (r: Vec<u8>)
        ensures
            r@ == spec_shard_uid_bytes(shard_uid) + hash@,
            r@.len() == STATE_KEY_LEN,
    {
        let mut r = shard_uid.to_bytes();
        extend_bytes(&mut r, hash.as_bytes().as_slice());
        r
    }

    /// Splits a node-storage key back into its shard identifier and hash.
    /// Exactly the keys of the shard-and-hash shape are accepted.
    pub fn get_shard_uid_and_hash_from_key(key: &[u8]) -> (r: Result<
        (ShardUId, CryptoHash),
        StoreError,
    >)
        ensures
            match r {
                Ok((uid, h)) => key@.len() == STATE_KEY_LEN && key@ =~= spec_shard_uid_bytes(uid)
                    + h@ && spec_parse_state_key(key@) == Some((uid, h@)),
                Err(e) => key@.len() != STATE_KEY_LEN && e == StoreError::InvalidStateKey
                    && spec_parse_state_key(key@) is None,
            },
    {
        if key.len() != STATE_KEY_LEN {
            return Err(StoreError::InvalidStateKey);
        }
        let version = u32_from_le_bytes(slice_subrange(key, 0, 4));
        let shard_id = u32_from_le_bytes(slice_subrange(key, 4, 8));
        let uid = ShardUId { version, shard_id };
        let hash_bytes = slice_to_vec(slice_subrange(key, 8, STATE_KEY_LEN));
        proof {
            lemma_auto_spec_u32_to_from_le_bytes();
            assert(key@.subrange(0, 4) =~= spec_shard_uid_bytes(uid).subrange(0, 4)) by {
                assert(spec_shard_uid_bytes(uid).subrange(0, 4) =~= vstd::bytes::spec_u32_to_le_bytes(
                    spec_u32_from_le_bytes(key@.subrange(0, 4)),
                ));
            }
            assert(key@.subrange(4, 8) =~= spec_shard_uid_bytes(uid).subrange(4, 8)) by {
                assert(spec_shard_uid_bytes(uid).subrange(4, 8) =~= vstd::bytes::spec_u32_to_le_bytes(
                    spec_u32_from_le_bytes(key@.subrange(4, 8)),
                ));
            }
        }
        match CryptoHash::new(hash_bytes) {
            Some(h) => {
                proof {
                    assert(key@ =~= spec_shard_uid_bytes(uid) + h@) by {
                        assert(forall|i: int|
                            0 <= i < 4 ==> key@[i] == spec_shard_uid_bytes(uid).subrange(0, 4)[i]);
                        assert(forall|i: int|
                            4 <= i < 8 ==> key@[i] == spec_shard_uid_bytes(uid).subrange(4, 8)[i
                                - 4]);
                        assert(forall|i: int|
                            8 <= i < 40 ==> key@[i] == key@.subrange(8, STATE_KEY_LEN as int)[i
                                - 8]);
                    }
                }
                Ok((uid, h))
            },
            None => {
                proof {
                    assert(false);
                }
                Err(StoreError::InvalidStateKey)
            },
        }
    }
}

} // verus!
