//! The facade over per-shard tries: cache registries, trie construction,
//! changeset application and cache synchronization on commit.

use vstd::prelude::*;
use crate::bytes::spec_opt_bytes_view;
use crate::change_log::KeyForStateChanges;
use crate::config::{spec_prefetch_eligible, TrieConfig};
use crate::db::{spec_kv_find, DBCol, DBOp, DBOpView, DBTransaction, KvEntryView, StoreUpdate};
use crate::errors::StoreError;
use crate::flat_state::FlatStateFactory;
use crate::hash::{spec_opt_hash_view, CryptoHash, StateRoot};
use crate::metrics::TrieChangeMetrics;
use crate::prefetch::{PrefetchApi, PrefetchingThreadsHandle};
use crate::shard_uid::{spec_shard_uid_bytes, ShardUId};
use crate::state_changes::{
    lemma_record_views, record_views, spec_enc_record, RawStateChangesView,
    RawStateChangesWithTrieKey, StateChangeCause,
};
use crate::trie::{Trie, TrieChanges, TrieRefcountChange, TrieRefcountChangeView, TrieUpdate};
use crate::trie_key::{spec_is_logged, spec_trie_key_bytes};
use crate::trie_storage::{
    spec_cache_apply_one, spec_parse_state_key, TrieCache, TrieCachingStorage, STATE_KEY_LEN,
};

verus! {

/// The mathematical shape of one cache registry: shard identifiers paired
/// with the cached entries of their cache, in creation order.
pub type CacheRegistryView = Seq<(ShardUId, Seq<KvEntryView>)>;

/// The views of a registry's entries.
pub open spec fn registry_views(s: Seq<(ShardUId, TrieCache)>) -> CacheRegistryView {
    s.map_values(|p: (ShardUId, TrieCache)| (p.0, p.1@))
}

/// Unfolds [`registry_views`] pointwise.
pub proof fn lemma_registry_views(s: Seq<(ShardUId, TrieCache)>)
    ensures
        registry_views(s).len() == s.len(),
        forall|i: int|
            0 <= i < s.len() ==> #[trigger] registry_views(s)[i] == (s[i].0, s[i].1@),
{
}

/// The cache contents registered under `uid`.
pub open spec fn spec_registry_find(r: CacheRegistryView, uid: ShardUId) -> Option<
    Seq<KvEntryView>,
>
    decreases r.len(),
{
    if r.len() == 0 {
        None
    } else if r[0].0 == uid {
        Some(r[0].1)
    } else {
        spec_registry_find(r.drop_first(), uid)
    }
}

/// Whether a registry has an entry for `uid`.
pub open spec fn spec_registry_contains(r: CacheRegistryView, uid: ShardUId) -> bool {
    spec_registry_find(r, uid) is Some
}

/// Resolving `uid`: an existing entry leaves the registry alone, a missing
/// one is created empty at the end.
pub open spec fn spec_registry_resolve(r: CacheRegistryView, uid: ShardUId) -> CacheRegistryView {
    if spec_registry_contains(r, uid) {
        r
    } else {
        r.push((uid, Seq::empty()))
    }
}

/// The content a resolved handle observes: the registered entries, or none
/// for a freshly created cache.
pub open spec fn spec_resolved_content(r: CacheRegistryView, uid: ShardUId) -> Seq<KvEntryView> {
    match spec_registry_find(r, uid) {
        Some(c) => c,
        None => Seq::empty(),
    }
}

/// When the first match for `uid` is at `i`, the lookup returns that entry.
pub proof fn lemma_registry_find_at(r: CacheRegistryView, uid: ShardUId, i: int)
    requires
        0 <= i < r.len(),
        r[i].0 == uid,
        forall|j: int| 0 <= j < i ==> r[j].0 != uid,
    ensures
        spec_registry_find(r, uid) == Some(r[i].1),
    decreases i,
{
    if i > 0 {
        lemma_registry_find_at(r.drop_first(), uid, i - 1);
    }
}

/// When no entry matches `uid`, the lookup misses.
pub proof fn lemma_registry_find_none(r: CacheRegistryView, uid: ShardUId)
    requires
        forall|j: int| 0 <= j < r.len() ==> r[j].0 != uid,
    ensures
        spec_registry_find(r, uid) is None,
    decreases r.len(),
{
    if r.len() > 0 {
        lemma_registry_find_none(r.drop_first(), uid);
    }
}

/// The shard identifiers a prefetcher registry holds.
pub open spec fn prefetcher_keys(s: Seq<(ShardUId, PrefetchApi)>) -> Seq<ShardUId> {
    s.map_values(|p: (ShardUId, PrefetchApi)| p.0)
}

/// Resolving a prefetcher: an existing shard leaves the keys alone, a
/// missing one is appended.
pub open spec fn spec_prefetchers_resolve(keys: Seq<ShardUId>, uid: ShardUId) -> Seq<ShardUId> {
    if keys.contains(uid) {
        keys
    } else {
        keys.push(uid)
    }
}

/// The per-shard trie facade.
///
/// It owns two disjoint cache registries — one for read-write client access,
/// one for read-only view access — the per-shard prefetchers, and the
/// counters of applied changes.  Client and view caches for the same shard
/// never share entries, so an in-progress write can never leak into a view
/// call.
#[derive(Debug)]
pub struct ShardTries {
    trie_config: TrieConfig,
    flat_state_factory: FlatStateFactory,
    /// Caches reserved for the client (read-write) path.
    caches: Vec<(ShardUId, TrieCache)>,
    /// Caches for read-only view access.
    view_caches: Vec<(ShardUId, TrieCache)>,
    /// Prefetcher state per shard, created on demand for eligible
    /// client-mode access.
    prefetchers: Vec<(ShardUId, PrefetchApi)>,
    prefetcher_threads: Vec<PrefetchingThreadsHandle>,
    metrics: TrieChangeMetrics,
}

impl ShardTries {
    /// The configuration this facade was built with.
    pub closed spec fn spec_config(&self) -> TrieConfig {
        self.trie_config
    }

    /// The flat-state factory this facade was built with.
    pub closed spec fn spec_flat_state_factory(&self) -> FlatStateFactory {
        self.flat_state_factory
    }

    /// The client-mode cache registry.
    pub closed spec fn spec_caches(&self) -> CacheRegistryView {
        registry_views(self.caches@)
    }

    /// The view-mode cache registry.
    pub closed spec fn spec_view_caches(&self) -> CacheRegistryView {
        registry_views(self.view_caches@)
    }

    /// The registry serving one access mode.
    pub open spec fn spec_registry(&self, is_view: bool) -> CacheRegistryView {
        if is_view {
            self.spec_view_caches()
        } else {
            self.spec_caches()
        }
    }

    /// The shards that have a prefetcher.
    pub closed spec fn spec_prefetchers(&self) -> Seq<ShardUId> {
        prefetcher_keys(self.prefetchers@)
    }

    /// The change counters.
    pub closed spec fn spec_metrics(&self) -> &TrieChangeMetrics {
        &self.metrics
    }

    /// The change counters, for observers.
    pub fn metrics(&self) -> (r: &TrieChangeMetrics)
        ensures
            r == self.spec_metrics(),
    {
        &self.metrics
    }

    /// How many shards one registry holds a cache for.
    pub fn num_caches(&self, is_view: bool) -> (r: usize)
        ensures
            r == self.spec_registry(is_view).len(),
    {
        if is_view {
            proof {
                lemma_registry_views(self.view_caches@);
            }
            self.view_caches.len()
        } else {
            proof {
                lemma_registry_views(self.caches@);
            }
            self.caches.len()
        }
    }

    /// A facade over the given shards: both registries start with an empty
    /// cache per shard, no prefetchers, nothing counted.
    pub fn new(
        trie_config: TrieConfig,
        shard_uids: &[ShardUId],
        flat_state_factory: FlatStateFactory,
    ) -> (r: ShardTries)
        ensures
            r.spec_config() == trie_config,
            r.spec_flat_state_factory() == flat_state_factory,
            r.spec_caches() == spec_initial_registry(shard_uids@),
            r.spec_view_caches() == spec_initial_registry(shard_uids@),
            r.spec_prefetchers() =~= Seq::<ShardUId>::empty(),
            r.spec_metrics().applied_trie_insertions@.len() == 0,
            r.spec_metrics().applied_trie_deletions@.len() == 0,
            r.spec_metrics().reverted_trie_insertions@.len() == 0,
    {
        let caches = Self::create_initial_caches(&trie_config, shard_uids, false);
        let view_caches = Self::create_initial_caches(&trie_config, shard_uids, true);
        ShardTries {
            trie_config,
            flat_state_factory,
            caches,
            view_caches,
            prefetchers: Vec::new(),
            prefetcher_threads: Vec::new(),
            metrics: TrieChangeMetrics::new(),
        }
    }

    /// A facade with `num_shards` shards of shard-layout version zero.
    pub fn test(num_shards: u32) -> (r: ShardTries)
        requires
            num_shards >= 1,
        ensures
            r.spec_caches().len() == num_shards,
            r.spec_view_caches().len() == num_shards,
            forall|i: int|
                0 <= i < num_shards ==> #[trigger] r.spec_caches()[i] == (
                    ShardUId { version: 0, shard_id: i as u32 },
                    Seq::<KvEntryView>::empty(),
                ),
            forall|i: int|
                0 <= i < num_shards ==> #[trigger] r.spec_view_caches()[i] == (
                    ShardUId { version: 0, shard_id: i as u32 },
                    Seq::<KvEntryView>::empty(),
                ),
            r.spec_prefetchers() =~= Seq::<ShardUId>::empty(),
            !spec_prefetch_eligible(&r.spec_config()),
            !r.spec_flat_state_factory().enabled,
    {
        Self::test_shard_version(0, num_shards)
    }

    /// A facade with `num_shards` shards of the given shard-layout version.
    pub fn test_shard_version(version: u32, num_shards: u32) -> (r: ShardTries)
        requires
            num_shards >= 1,
        ensures
            r.spec_caches().len() == num_shards,
            r.spec_view_caches().len() == num_shards,
            forall|i: int|
                0 <= i < num_shards ==> #[trigger] r.spec_caches()[i] == (
                    ShardUId { version, shard_id: i as u32 },
                    Seq::<KvEntryView>::empty(),
                ),
            forall|i: int|
                0 <= i < num_shards ==> #[trigger] r.spec_view_caches()[i] == (
                    ShardUId { version, shard_id: i as u32 },
                    Seq::<KvEntryView>::empty(),
                ),
            r.spec_prefetchers() =~= Seq::<ShardUId>::empty(),
            !spec_prefetch_eligible(&r.spec_config()),
            !r.spec_flat_state_factory().enabled,
    {
        let mut shard_uids: Vec<ShardUId> = Vec::new();
        let mut shard_id: u32 = 0;
        while shard_id < num_shards
            invariant
                shard_id <= num_shards,
                shard_uids@.len() == shard_id,
                forall|i: int|
                    0 <= i < shard_id ==> #[trigger] shard_uids@[i] == (ShardUId {
                        version,
                        shard_id: i as u32,
                    }),
            decreases num_shards - shard_id,
        {
            shard_uids.push(ShardUId { version, shard_id });
            shard_id += 1;
        }
        let trie_config = TrieConfig::default();
        let r = ShardTries::new(trie_config, shard_uids.as_slice(), FlatStateFactory::new(false));
        proof {
            lemma_initial_registry(shard_uids@);
        }
        r
    }

    /// One empty cache per shard, in the given order.
    fn create_initial_caches(config: &TrieConfig, shard_uids: &[ShardUId], is_view: bool) -> (r:
        Vec<(ShardUId, TrieCache)>)
        ensures
            registry_views(r@) == spec_initial_registry(shard_uids@),
    {
        let mut r: Vec<(ShardUId, TrieCache)> = Vec::new();
        let mut i: usize = 0;
        while i < shard_uids.len()
            invariant
                i <= shard_uids@.len(),
                registry_views(r@) == spec_initial_registry(shard_uids@.subrange(0, i as int)),
            decreases shard_uids@.len() - i,
        {
            let uid = *vstd::slice::slice_index_get(shard_uids, i);
            let ghost r_before = r@;
            r.push((uid, TrieCache::new(config, uid, is_view)));
            proof {
                lemma_registry_views(r_before);
                lemma_registry_views(r@);
                assert(registry_views(r@) =~= spec_initial_registry(
                    shard_uids@.subrange(0, i + 1),
                )) by {
                    lemma_initial_registry(shard_uids@.subrange(0, i as int));
                    lemma_initial_registry(shard_uids@.subrange(0, i + 1));
                    assert(forall|j: int|
                        0 <= j < i ==> shard_uids@.subrange(0, i as int)[j] == shard_uids@[j]);
                    assert(forall|j: int|
                        0 <= j <= i ==> shard_uids@.subrange(0, i + 1)[j] == shard_uids@[j]);
                    assert(forall|j: int|
                        0 <= j < i ==> #[trigger] registry_views(r@)[j] == registry_views(
                            r_before,
                        )[j]);
                }
            }
            i += 1;
        }
        proof {
            assert(shard_uids@.subrange(0, shard_uids@.len() as int) =~= shard_uids@);
        }
        r
    }

    /// Resolves the cache serving `(shard_uid, is_view)`: an existing entry
    /// is left alone, a missing one is created empty; the returned handle
    /// observes the resolved entry's content.  The other mode's registry and
    /// the prefetchers are untouched.
    pub fn resolve_cache(&mut self, shard_uid: ShardUId, is_view: bool) -> (r: TrieCache)
        ensures
            r@ == spec_resolved_content(old(self).spec_registry(is_view), shard_uid),
            final(self).spec_registry(is_view) == spec_registry_resolve(
                old(self).spec_registry(is_view),
                shard_uid,
            ),
            final(self).spec_registry(!is_view) == old(self).spec_registry(!is_view),
            final(self).spec_prefetchers() == old(self).spec_prefetchers(),
            final(self).spec_config() == old(self).spec_config(),
            final(self).spec_flat_state_factory() == old(self).spec_flat_state_factory(),
            final(self).spec_metrics() == old(self).spec_metrics(),
    {
        if is_view {
            let r = resolve_in_registry(&mut self.view_caches, &self.trie_config, shard_uid, true);
            r
        } else {
            let r = resolve_in_registry(&mut self.caches, &self.trie_config, shard_uid, false);
            r
        }
    }
}

/// What building a trie does: `r` is the trie handed back by `post`, built
/// by `pre` for `(shard_uid, state_root)` in the given mode.
pub open spec fn spec_trie_built(
    pre: &ShardTries,
    post: &ShardTries,
    r: &Trie,
    shard_uid: ShardUId,
    state_root: &StateRoot,
    is_view: bool,
    block_hash: Option<CryptoHash>,
) -> bool {
    let eligible = !is_view && spec_prefetch_eligible(&pre.spec_config());
    &&& r.storage.shard_uid == shard_uid
    &&& r.storage.is_view == is_view
    &&& r.state_root@ == state_root@
    &&& r.storage.cache@ == spec_resolved_content(pre.spec_registry(is_view), shard_uid)
    &&& post.spec_registry(is_view) == spec_registry_resolve(
        pre.spec_registry(is_view),
        shard_uid,
    )
    &&& post.spec_registry(!is_view) == pre.spec_registry(!is_view)
    &&& eligible ==> (r.storage.prefetch_api matches Some(p) && p.shard_uid == shard_uid)
    &&& !eligible ==> r.storage.prefetch_api is None
    &&& post.spec_prefetchers() == if eligible {
        spec_prefetchers_resolve(pre.spec_prefetchers(), shard_uid)
    } else {
        pre.spec_prefetchers()
    }
    &&& (pre.spec_flat_state_factory().enabled && !is_view) ==> (r.flat_state matches Some(f)
        && f.shard_id == shard_uid.shard_id && spec_opt_hash_view(f.block_hash)
        == spec_opt_hash_view(block_hash))
    &&& !(pre.spec_flat_state_factory().enabled && !is_view) ==> r.flat_state is None
    &&& post.spec_config() == pre.spec_config()
    &&& post.spec_flat_state_factory() == pre.spec_flat_state_factory()
    &&& post.spec_metrics() == pre.spec_metrics()
}

impl ShardTries {
    /// Builds the trie: resolves the mode's cache, attaches a prefetcher
    /// for eligible client-mode access, and wires storage, root and
    /// flat state together.  Prefetching is never enabled on view caches:
    /// view calls are latency-insensitive, and the prefetch pipeline
    /// assumes a single client-mode user per shard.
    fn get_trie_for_shard_internal(
        &mut self,
        shard_uid: ShardUId,
        state_root: StateRoot,
        is_view: bool,
        block_hash: Option<CryptoHash>,
    ) -> (r: Trie)
        ensures
            spec_trie_built(old(self), final(self), &r, shard_uid, &state_root, is_view, block_hash),
    {
        let cache = self.resolve_cache(shard_uid, is_view);
        let prefetch_enabled = !is_view && self.trie_config.prefetch_eligible();
        let prefetch_api = if prefetch_enabled {
            Some(self.resolve_prefetcher(shard_uid))
        } else {
            None
        };
        let storage = TrieCachingStorage::new(cache, shard_uid, is_view, prefetch_api);
        let flat_state = self.flat_state_factory.new_flat_state_for_shard(
            shard_uid.shard_id,
            block_hash,
            is_view,
        );
        Trie::new(storage, state_root, flat_state)
    }

    /// A read-write trie over `shard_uid` at `state_root`.
    pub fn get_trie_for_shard(&mut self, shard_uid: ShardUId, state_root: StateRoot) -> (r: Trie)
        ensures
            spec_trie_built(old(self), final(self), &r, shard_uid, &state_root, false, None),
    {
        self.get_trie_for_shard_internal(shard_uid, state_root, false, None)
    }

    /// A read-write trie over `shard_uid` at `state_root`, with the block
    /// hash handed to the flat-state accelerator.
    pub fn get_trie_with_block_hash_for_shard(
        &mut self,
        shard_uid: ShardUId,
        state_root: StateRoot,
        block_hash: &CryptoHash,
    ) -> (r: Trie)
        ensures
            spec_trie_built(
                old(self),
                final(self),
                &r,
                shard_uid,
                &state_root,
                false,
                Some(*block_hash),
            ),
    {
        let block_hash_copy = block_hash.clone();
        self.get_trie_for_shard_internal(shard_uid, state_root, false, Some(block_hash_copy))
    }

    /// A read-only view trie over `shard_uid` at `state_root`.
    pub fn get_view_trie_for_shard(&mut self, shard_uid: ShardUId, state_root: StateRoot) -> (r:
        Trie)
        ensures
            spec_trie_built(old(self), final(self), &r, shard_uid, &state_root, true, None),
    {
        self.get_trie_for_shard_internal(shard_uid, state_root, true, None)
    }

    /// A read-write trie wrapped for overlaying uncommitted updates.
    pub fn new_trie_update(&mut self, shard_uid: ShardUId, state_root: StateRoot) -> (r:
        TrieUpdate)
        ensures
            spec_trie_built(old(self), final(self), &r.trie, shard_uid, &state_root, false, None),
    {
        TrieUpdate::new(self.get_trie_for_shard(shard_uid, state_root))
    }

    /// A read-only view trie wrapped for overlaying uncommitted updates.
    pub fn new_trie_update_view(&mut self, shard_uid: ShardUId, state_root: StateRoot) -> (r:
        TrieUpdate)
        ensures
            spec_trie_built(old(self), final(self), &r.trie, shard_uid, &state_root, true, None),
    {
        TrieUpdate::new(self.get_view_trie_for_shard(shard_uid, state_root))
    }

    /// Get-or-create the prefetcher of `shard_uid`.
    fn resolve_prefetcher(&mut self, shard_uid: ShardUId) -> (r: PrefetchApi)
        ensures
            r.shard_uid == shard_uid,
            final(self).spec_prefetchers() == spec_prefetchers_resolve(
                old(self).spec_prefetchers(),
                shard_uid,
            ),
            final(self).spec_caches() == old(self).spec_caches(),
            final(self).spec_view_caches() == old(self).spec_view_caches(),
            final(self).spec_config() == old(self).spec_config(),
            final(self).spec_flat_state_factory() == old(self).spec_flat_state_factory(),
            final(self).spec_metrics() == old(self).spec_metrics(),
    {
        let ghost keys = prefetcher_keys(self.prefetchers@);
        proof {
            lemma_prefetcher_keys(self.prefetchers@);
        }
        let mut i: usize = 0;
        let n = self.prefetchers.len();
        while i < n
            invariant
                n == self.prefetchers@.len(),
                keys == prefetcher_keys(self.prefetchers@),
                i <= n,
                forall|j: int| 0 <= j < i ==> keys[j] != shard_uid,
            decreases n - i,
        {
            proof {
                lemma_prefetcher_keys(self.prefetchers@);
            }
            if self.prefetchers[i].0 == shard_uid {
                proof {
                    assert(keys[i as int] == shard_uid);
                    assert(keys.contains(shard_uid));
                }
                return PrefetchApi { shard_uid };
            }
            i += 1;
        }
        proof {
            assert(!keys.contains(shard_uid)) by {
                if keys.contains(shard_uid) {
                    let j = choose|j: int| 0 <= j < keys.len() && keys[j] == shard_uid;
                    assert(keys[j] != shard_uid);
                }
            }
        }
        let (api, threads) = PrefetchApi::new(shard_uid, &self.trie_config);
        let ghost before = self.prefetchers@;
        self.prefetchers.push((shard_uid, api));
        self.prefetcher_threads.push(threads);
        proof {
            lemma_prefetcher_keys(before);
            lemma_prefetcher_keys(self.prefetchers@);
            assert(prefetcher_keys(self.prefetchers@) =~= spec_prefetchers_resolve(
                keys,
                shard_uid,
            ));
        }
        api
    }
}

/// Unfolds [`prefetcher_keys`] pointwise.
pub proof fn lemma_prefetcher_keys(s: Seq<(ShardUId, PrefetchApi)>)
    ensures
        prefetcher_keys(s).len() == s.len(),
        forall|i: int| 0 <= i < s.len() ==> #[trigger] prefetcher_keys(s)[i] == s[i].0,
{
}

/// One cache update distilled from a batch operation: the shard, the node
/// hash, and the new bytes (or `None` to drop the node).
pub type CacheOpView = (ShardUId, Seq<u8>, Option<Seq<u8>>);

/// A batch operation never writes the node-storage column except through
/// refcount adjustments or a full clear: a plain write there is a
/// programming error upstream.
pub open spec fn spec_no_raw_state_writes(ops: Seq<DBOpView>) -> bool {
    forall|i: int|
        0 <= i < ops.len() ==> match #[trigger] ops[i] {
            DBOpView::Put { col, .. } => col != DBCol::State,
            DBOpView::Insert { col, .. } => col != DBCol::State,
            DBOpView::Delete { col, .. } => col != DBCol::State,
            _ => true,
        }
}

/// One operation's key is decodable where it must be: refcount adjustments
/// on the node-storage column carry a shard-and-hash key.
pub open spec fn spec_cache_op_ok(op: DBOpView) -> bool {
    match op {
        DBOpView::IncrementRefcount { col, key, .. } => col == DBCol::State ==> key.len()
            == STATE_KEY_LEN,
        DBOpView::DecrementRefcount { col, key, .. } => col == DBCol::State ==> key.len()
            == STATE_KEY_LEN,
        _ => true,
    }
}

/// Every refcount key of the batch is decodable.
pub open spec fn spec_cache_ops_ok(ops: Seq<DBOpView>) -> bool {
    forall|i: int| 0 <= i < ops.len() ==> spec_cache_op_ok(#[trigger] ops[i])
}

/// The cache updates one batch operation contributes.
pub open spec fn spec_op_cache_effect(op: DBOpView) -> Seq<CacheOpView> {
    match op {
        DBOpView::IncrementRefcount { col, key, value, .. } => if col == DBCol::State {
            match spec_parse_state_key(key) {
                Some(parsed) => seq![(parsed.0, parsed.1, Some(value))],
                None => Seq::empty(),
            }
        } else {
            Seq::empty()
        },
        DBOpView::DecrementRefcount { col, key, .. } => if col == DBCol::State {
            match spec_parse_state_key(key) {
                Some(parsed) => seq![(parsed.0, parsed.1, None)],
                None => Seq::empty(),
            }
        } else {
            Seq::empty()
        },
        _ => Seq::empty(),
    }
}

/// The cache updates of a whole batch, in program order.
pub open spec fn spec_rc_cache_ops(ops: Seq<DBOpView>) -> Seq<CacheOpView>
    decreases ops.len(),
{
    if ops.len() == 0 {
        Seq::empty()
    } else {
        spec_rc_cache_ops(ops.drop_last()) + spec_op_cache_effect(ops.last())
    }
}

/// Whether the batch clears the whole node-storage column.
pub open spec fn spec_has_state_delete_all(ops: Seq<DBOpView>) -> bool {
    exists|i: int|
        0 <= i < ops.len() && (#[trigger] ops[i]) matches DBOpView::DeleteAll {
            col: DBCol::State,
        }
}

/// Every cache of the registry emptied; the shard set is unchanged.
pub open spec fn spec_cleared_registry(r: CacheRegistryView) -> CacheRegistryView {
    r.map_values(|p: (ShardUId, Seq<KvEntryView>)| (p.0, Seq::<KvEntryView>::empty()))
}

/// Unfolds [`spec_cleared_registry`] pointwise.
pub proof fn lemma_cleared_registry(r: CacheRegistryView)
    ensures
        spec_cleared_registry(r).len() == r.len(),
        forall|i: int|
            0 <= i < r.len() ==> #[trigger] spec_cleared_registry(r)[i] == (
                r[i].0,
                Seq::<KvEntryView>::empty(),
            ),
{
}

/// One cache update applied to the registry: the shard's cache (created if
/// absent) gets the entry set or dropped.
pub open spec fn spec_registry_apply_one(
    r: CacheRegistryView,
    uid: ShardUId,
    hash: Seq<u8>,
    val: Option<Seq<u8>>,
) -> CacheRegistryView
    decreases r.len(),
{
    if r.len() == 0 {
        seq![(uid, spec_cache_apply_one(Seq::empty(), hash, val))]
    } else if r[0].0 == uid {
        seq![(uid, spec_cache_apply_one(r[0].1, hash, val))] + r.drop_first()
    } else {
        seq![r[0]] + spec_registry_apply_one(r.drop_first(), uid, hash, val)
    }
}

/// When the first entry for `uid` is at `i`, applying updates in place.
pub proof fn lemma_registry_apply_one_at(
    r: CacheRegistryView,
    uid: ShardUId,
    hash: Seq<u8>,
    val: Option<Seq<u8>>,
    i: int,
)
    requires
        0 <= i < r.len(),
        r[i].0 == uid,
        forall|j: int| 0 <= j < i ==> r[j].0 != uid,
    ensures
        spec_registry_apply_one(r, uid, hash, val) =~= r.update(
            i,
            (uid, spec_cache_apply_one(r[i].1, hash, val)),
        ),
    decreases i,
{
    if i == 0 {
    } else {
        lemma_registry_apply_one_at(r.drop_first(), uid, hash, val, i - 1);
        assert(r.drop_first().update(i - 1, (uid, spec_cache_apply_one(r[i].1, hash, val)))
            =~= r.update(i, (uid, spec_cache_apply_one(r[i].1, hash, val))).drop_first());
    }
}

/// When no entry matches `uid`, applying creates the shard's cache at the
/// end.
pub proof fn lemma_registry_apply_one_none(
    r: CacheRegistryView,
    uid: ShardUId,
    hash: Seq<u8>,
    val: Option<Seq<u8>>,
)
    requires
        forall|j: int| 0 <= j < r.len() ==> r[j].0 != uid,
    ensures
        spec_registry_apply_one(r, uid, hash, val) =~= r.push(
            (uid, spec_cache_apply_one(Seq::empty(), hash, val)),
        ),
    decreases r.len(),
{
    if r.len() > 0 {
        lemma_registry_apply_one_none(r.drop_first(), uid, hash, val);
        assert(r.drop_first().push((uid, spec_cache_apply_one(Seq::empty(), hash, val)))
            =~= r.push((uid, spec_cache_apply_one(Seq::empty(), hash, val))).drop_first());
    }
}

/// A list of cache updates applied to the registry, in order.
pub open spec fn spec_registry_apply_rc_ops(
    r: CacheRegistryView,
    ops: Seq<CacheOpView>,
) -> CacheRegistryView
    decreases ops.len(),
{
    if ops.len() == 0 {
        r
    } else {
        spec_registry_apply_one(
            spec_registry_apply_rc_ops(r, ops.drop_last()),
            ops.last().0,
            ops.last().1,
            ops.last().2,
        )
    }
}

/// What synchronizing the client registry from a batch does: a batch with a
/// node-storage clear first empties every cache, then the refcount
/// adjustments are applied in order.
pub open spec fn spec_update_cache_result(
    r: CacheRegistryView,
    ops: Seq<DBOpView>,
) -> CacheRegistryView {
    let base = if spec_has_state_delete_all(ops) {
        spec_cleared_registry(r)
    } else {
        r
    };
    spec_registry_apply_rc_ops(base, spec_rc_cache_ops(ops))
}

/// The views of collected cache updates.
pub open spec fn collected_views(s: Seq<(ShardUId, CryptoHash, Option<Vec<u8>>)>) -> Seq<
    CacheOpView,
> {
    s.map_values(
        |t: (ShardUId, CryptoHash, Option<Vec<u8>>)| (t.0, t.1@, spec_opt_bytes_view(t.2)),
    )
}

/// Unfolds [`collected_views`] pointwise.
pub proof fn lemma_collected_views(s: Seq<(ShardUId, CryptoHash, Option<Vec<u8>>)>)
    ensures
        collected_views(s).len() == s.len(),
        forall|i: int|
            0 <= i < s.len() ==> #[trigger] collected_views(s)[i] == (
                s[i].0,
                s[i].1@,
                spec_opt_bytes_view(s[i].2),
            ),
{
}

/// Empties every cache of a registry in place; the shard set is kept.
fn clear_registry(reg: &mut Vec<(ShardUId, TrieCache)>)
    ensures
        registry_views(final(reg)@) == spec_cleared_registry(registry_views(old(reg)@)),
{
    let ghost rv = registry_views(reg@);
    let mut fresh: Vec<(ShardUId, TrieCache)> = Vec::new();
    let mut i: usize = 0;
    let n = reg.len();
    while i < n
        invariant
            n == reg@.len(),
            rv == registry_views(reg@),
            i <= n,
            registry_views(fresh@) == spec_cleared_registry(rv.subrange(0, i as int)),
        decreases n - i,
    {
        proof {
            lemma_registry_views(reg@);
        }
        let uid = reg[i].0;
        let cache = reg[i].1.cleared_copy();
        let ghost fresh_before = fresh@;
        fresh.push((uid, cache));
        proof {
            lemma_registry_views(fresh_before);
            lemma_registry_views(fresh@);
            lemma_cleared_registry(rv.subrange(0, i as int));
            lemma_cleared_registry(rv.subrange(0, i + 1));
            assert(registry_views(fresh@) =~= spec_cleared_registry(rv.subrange(0, i + 1))) by {
                assert(forall|j: int|
                    0 <= j < i ==> #[trigger] registry_views(fresh@)[j] == registry_views(
                        fresh_before,
                    )[j]);
                assert(forall|j: int| 0 <= j <= i ==> rv.subrange(0, i + 1)[j] == rv[j]);
                assert(forall|j: int| 0 <= j < i ==> rv.subrange(0, i as int)[j] == rv[j]);
            }
        }
        i += 1;
    }
    proof {
        assert(rv.subrange(0, rv.len() as int) =~= rv);
    }
    *reg = fresh;
}

/// Applies one collected cache update to a registry vector.
fn registry_apply_one_exec(
    reg: &mut Vec<(ShardUId, TrieCache)>,
    config: &TrieConfig,
    uid: ShardUId,
    hash: &CryptoHash,
    val: &Option<Vec<u8>>,
)
    ensures
        registry_views(final(reg)@) == spec_registry_apply_one(
            registry_views(old(reg)@),
            uid,
            hash@,
            spec_opt_bytes_view(*val),
        ),
{
    let ghost rv = registry_views(reg@);
    let ghost valv: Option<Seq<u8>> = spec_opt_bytes_view(*val);
    proof {
        lemma_registry_views(reg@);
    }
    let mut i: usize = 0;
    let n = reg.len();
    while i < n
        invariant
            n == reg@.len(),
            reg@ == old(reg)@,
            rv == registry_views(reg@),
            valv == spec_opt_bytes_view(*val),
            i <= n,
            forall|j: int| 0 <= j < i ==> rv[j].0 != uid,
        decreases n - i,
    {
        proof {
            lemma_registry_views(reg@);
        }
        if reg[i].0 == uid {
            let ghost pre = reg@;
            let pair = reg.remove(i);
            let entry_uid = pair.0;
            let mut cache = pair.1;
            proof {
                assert(entry_uid == pre[i as int].0);
                assert(cache == pre[i as int].1);
            }
            match val {
                Some(v) => {
                    proof {
                        assert(valv == Some(v@));
                    }
                    cache.insert_value(hash, v);
                    proof {
                        assert(cache@ == spec_cache_apply_one(pre[i as int].1@, hash@, valv));
                    }
                },
                None => {
                    proof {
                        assert(valv is None);
                    }
                    cache.remove_value(hash);
                    proof {
                        assert(cache@ == spec_cache_apply_one(pre[i as int].1@, hash@, valv));
                    }
                },
            }
            reg.insert(i, (entry_uid, cache));
            proof {
                lemma_registry_apply_one_at(rv, uid, hash@, valv, i as int);
                lemma_registry_views(pre);
                lemma_registry_views(reg@);
                assert(reg@ =~= pre.update(i as int, (entry_uid, cache)));
                assert(registry_views(reg@) =~= spec_registry_apply_one(rv, uid, hash@, valv))
                by {
                    assert(forall|j: int|
                        0 <= j < reg@.len() && j != i ==> reg@[j] == pre[j]);
                    assert(registry_views(reg@)[i as int] == (entry_uid, cache@));
                    assert(cache@ == spec_cache_apply_one(pre[i as int].1@, hash@, valv));
                }
            }
            return ;
        }
        i += 1;
    }
    proof {
        lemma_registry_apply_one_none(rv, uid, hash@, valv);
    }
    let mut cache = TrieCache::new(config, uid, false);
    match val {
        Some(v) => cache.insert_value(hash, v),
        None => cache.remove_value(hash),
    }
    let ghost before = reg@;
    reg.push((uid, cache));
    proof {
        lemma_registry_views(before);
        lemma_registry_views(reg@);
        assert(registry_views(reg@) =~= spec_registry_apply_one(rv, uid, hash@, valv));
    }
}

impl ShardTries {
    /// Synchronizes the client-mode caches from an about-to-be-applied (or
    /// just-applied) batch, so subsequent reads observe the new nodes
    /// without re-fetching from disk.
    ///
    /// A refcount adjustment on the node-storage column updates the shard's
    /// cache (created if absent) with the node's bytes, or drops the node
    /// for a decrement.  A full clear of that column empties every client
    /// cache, keeping the shard set.  The view caches are never touched.
    /// The call fails, changing no cache beyond the clears already
    /// performed, exactly when some refcount key lacks the shard-and-hash
    /// shape.
    pub fn update_cache(&mut self, transaction: &DBTransaction) -> (r: Result<(), StoreError>)
        requires
            spec_no_raw_state_writes(transaction@),
        ensures
            r is Ok <==> spec_cache_ops_ok(transaction@),
            r is Ok ==> final(self).spec_caches() == spec_update_cache_result(
                old(self).spec_caches(),
                transaction@,
            ),
            r is Err ==> r == Err::<(), StoreError>(StoreError::InvalidStateKey)
                && (final(self).spec_caches() == old(self).spec_caches()
                || final(self).spec_caches() == spec_cleared_registry(old(self).spec_caches())),
            final(self).spec_view_caches() == old(self).spec_view_caches(),
            final(self).spec_prefetchers() == old(self).spec_prefetchers(),
            final(self).spec_config() == old(self).spec_config(),
            final(self).spec_flat_state_factory() == old(self).spec_flat_state_factory(),
            final(self).spec_metrics() == old(self).spec_metrics(),
    {
        let ghost txv = transaction@;
        let ghost caches0 = old(self).spec_caches();
        let mut collected: Vec<(ShardUId, CryptoHash, Option<Vec<u8>>)> = Vec::new();
        let mut cleared = false;
        let mut i: usize = 0;
        let n = transaction.ops.len();
        while i < n
            invariant
                n == transaction.ops@.len(),
                txv == transaction@,
                i <= n,
                spec_no_raw_state_writes(txv),
                caches0 == old(self).spec_caches(),
                collected_views(collected@) == spec_rc_cache_ops(txv.subrange(0, i as int)),
                cleared == spec_has_state_delete_all(txv.subrange(0, i as int)),
                spec_cache_ops_ok(txv.subrange(0, i as int)),
                self.spec_caches() == if cleared {
                    spec_cleared_registry(caches0)
                } else {
                    caches0
                },
                self.spec_view_caches() == old(self).spec_view_caches(),
                self.spec_prefetchers() == old(self).spec_prefetchers(),
                self.spec_config() == old(self).spec_config(),
                self.spec_flat_state_factory() == old(self).spec_flat_state_factory(),
                self.spec_metrics() == old(self).spec_metrics(),
            decreases n - i,
        {
            proof {
                assert(txv.subrange(0, i + 1).drop_last() =~= txv.subrange(0, i as int));
                assert(txv.subrange(0, i + 1).last() == txv[i as int]);
                assert(txv[i as int] == transaction.ops@[i as int]@);
            }
            let op = &transaction.ops[i];
            match op {
                DBOp::IncrementRefcount { col, key, value, rc: _ } => {
                    if *col == DBCol::State {
                        match TrieCachingStorage::get_shard_uid_and_hash_from_key(key.as_slice()) {
                            Ok((uid, h)) => {
                                let ghost coll_before = collected@;
                                collected.push(
                                    (uid, h, Some(vstd::slice::slice_to_vec(value.as_slice()))),
                                );
                                proof {
                                    lemma_collected_views(coll_before);
                                    lemma_collected_views(collected@);
                                    assert(collected_views(collected@) =~= spec_rc_cache_ops(
                                        txv.subrange(0, i + 1),
                                    ));
                                }
                            },
                            Err(_) => {
                                proof {
                                    assert(!spec_cache_op_ok(txv[i as int]));
                                    assert(!spec_cache_ops_ok(txv));
                                }
                                return Err(StoreError::InvalidStateKey);
                            },
                        }
                    } else {
                        proof {
                            assert(collected_views(collected@) =~= spec_rc_cache_ops(
                                txv.subrange(0, i + 1),
                            ));
                        }
                    }
                },
                DBOp::DecrementRefcount { col, key, rc: _ } => {
                    if *col == DBCol::State {
                        match TrieCachingStorage::get_shard_uid_and_hash_from_key(key.as_slice()) {
                            Ok((uid, h)) => {
                                let ghost coll_before = collected@;
                                collected.push((uid, h, None));
                                proof {
                                    lemma_collected_views(coll_before);
                                    lemma_collected_views(collected@);
                                    assert(collected_views(collected@) =~= spec_rc_cache_ops(
                                        txv.subrange(0, i + 1),
                                    ));
                                }
                            },
                            Err(_) => {
                                proof {
                                    assert(!spec_cache_op_ok(txv[i as int]));
                                    assert(!spec_cache_ops_ok(txv));
                                }
                                return Err(StoreError::InvalidStateKey);
                            },
                        }
                    } else {
                        proof {
                            assert(collected_views(collected@) =~= spec_rc_cache_ops(
                                txv.subrange(0, i + 1),
                            ));
                        }
                    }
                },
                DBOp::DeleteAll { col } => {
                    if *col == DBCol::State {
                        // A full clear of the node-storage column happens on
                        // state-sync resets; every client cache is emptied.
                        clear_registry(&mut self.caches);
                        cleared = true;
                        proof {
                            if spec_has_state_delete_all(txv.subrange(0, i as int)) {
                                lemma_cleared_registry(caches0);
                                lemma_cleared_registry(spec_cleared_registry(caches0));
                                assert(spec_cleared_registry(spec_cleared_registry(caches0))
                                    =~= spec_cleared_registry(caches0));
                            }
                            assert(txv.subrange(0, i + 1)[i as int] matches DBOpView::DeleteAll {
                                col: DBCol::State,
                            });
                            assert(spec_has_state_delete_all(txv.subrange(0, i + 1)));
                            assert(collected_views(collected@) =~= spec_rc_cache_ops(
                                txv.subrange(0, i + 1),
                            ));
                        }
                    } else {
                        proof {
                            assert(collected_views(collected@) =~= spec_rc_cache_ops(
                                txv.subrange(0, i + 1),
                            ));
                        }
                    }
                },
                DBOp::Put { col, key: _, value: _ } => {
                    proof {
                        assert(*col != DBCol::State);
                        assert(collected_views(collected@) =~= spec_rc_cache_ops(
                            txv.subrange(0, i + 1),
                        ));
                    }
                },
                DBOp::Insert { col, key: _, value: _ } => {
                    proof {
                        assert(*col != DBCol::State);
                        assert(collected_views(collected@) =~= spec_rc_cache_ops(
                            txv.subrange(0, i + 1),
                        ));
                    }
                },
                DBOp::Delete { col, key: _ } => {
                    proof {
                        assert(*col != DBCol::State);
                        assert(collected_views(collected@) =~= spec_rc_cache_ops(
                            txv.subrange(0, i + 1),
                        ));
                    }
                },
            }
            proof {
                if !(txv[i as int] matches DBOpView::DeleteAll { col: DBCol::State }) {
                    if spec_has_state_delete_all(txv.subrange(0, i + 1)) {
                        let w = choose|w: int|
                            0 <= w < txv.subrange(0, i + 1).len() && (#[trigger] txv.subrange(
                                0,
                                i + 1,
                            )[w]) matches DBOpView::DeleteAll { col: DBCol::State };
                        assert(txv.subrange(0, i as int)[w] matches DBOpView::DeleteAll {
                            col: DBCol::State,
                        });
                        assert(spec_has_state_delete_all(txv.subrange(0, i as int)));
                    }
                    if spec_has_state_delete_all(txv.subrange(0, i as int)) {
                        let w = choose|w: int|
                            0 <= w < txv.subrange(0, i as int).len() && (#[trigger] txv.subrange(
                                0,
                                i as int,
                            )[w]) matches DBOpView::DeleteAll { col: DBCol::State };
                        assert(txv.subrange(0, i + 1)[w] matches DBOpView::DeleteAll {
                            col: DBCol::State,
                        });
                    }
                }
            }
            i += 1;
        }
        proof {
            assert(txv.subrange(0, txv.len() as int) =~= txv);
        }
        // Apply the collected refcount updates, in program order.
        let ghost base = self.spec_caches();
        let ghost collv = collected_views(collected@);
        let mut j: usize = 0;
        let m = collected.len();
        while j < m
            invariant
                m == collected@.len(),
                collv == collected_views(collected@),
                j <= m,
                self.spec_caches() == spec_registry_apply_rc_ops(base, collv.subrange(0, j as int)),
                self.spec_view_caches() == old(self).spec_view_caches(),
                self.spec_prefetchers() == old(self).spec_prefetchers(),
                self.spec_config() == old(self).spec_config(),
                self.spec_flat_state_factory() == old(self).spec_flat_state_factory(),
                self.spec_metrics() == old(self).spec_metrics(),
            decreases m - j,
        {
            proof {
                assert(collv.subrange(0, j + 1).drop_last() =~= collv.subrange(0, j as int));
                assert(collv.subrange(0, j + 1).last() == collv[j as int]);
                lemma_collected_views(collected@);
            }
            let uid = collected[j].0;
            let item = &collected[j];
            registry_apply_one_exec(&mut self.caches, &self.trie_config, uid, &item.1, &item.2);
            j += 1;
        }
        proof {
            assert(collv.subrange(0, collv.len() as int) =~= collv);
        }
        Ok(())
    }
}

/// The refcount increments a changeset's list contributes, in list order.
pub open spec fn spec_increment_ops(
    changes: Seq<TrieRefcountChangeView>,
    shard_uid: ShardUId,
) -> Seq<DBOpView> {
    changes.map_values(
        |c: TrieRefcountChangeView|
            DBOpView::IncrementRefcount {
                col: DBCol::State,
                key: spec_shard_uid_bytes(shard_uid) + c.trie_node_or_value_hash,
                value: c.trie_node_or_value,
                rc: c.rc,
            },
    )
}

/// The refcount decrements a changeset's list contributes, in list order.
pub open spec fn spec_decrement_ops(
    changes: Seq<TrieRefcountChangeView>,
    shard_uid: ShardUId,
) -> Seq<DBOpView> {
    changes.map_values(
        |c: TrieRefcountChangeView|
            DBOpView::DecrementRefcount {
                col: DBCol::State,
                key: spec_shard_uid_bytes(shard_uid) + c.trie_node_or_value_hash,
                rc: c.rc,
            },
    )
}

/// Unfolds [`spec_increment_ops`] pointwise.
pub proof fn lemma_increment_ops(changes: Seq<TrieRefcountChangeView>, shard_uid: ShardUId)
    ensures
        spec_increment_ops(changes, shard_uid).len() == changes.len(),
        forall|i: int|
            0 <= i < changes.len() ==> #[trigger] spec_increment_ops(changes, shard_uid)[i] == (
            DBOpView::IncrementRefcount {
                col: DBCol::State,
                key: spec_shard_uid_bytes(shard_uid) + changes[i].trie_node_or_value_hash,
                value: changes[i].trie_node_or_value,
                rc: changes[i].rc,
            }),
{
}

/// Unfolds [`spec_decrement_ops`] pointwise.
pub proof fn lemma_decrement_ops(changes: Seq<TrieRefcountChangeView>, shard_uid: ShardUId)
    ensures
        spec_decrement_ops(changes, shard_uid).len() == changes.len(),
        forall|i: int|
            0 <= i < changes.len() ==> #[trigger] spec_decrement_ops(changes, shard_uid)[i] == (
            DBOpView::DecrementRefcount {
                col: DBCol::State,
                key: spec_shard_uid_bytes(shard_uid) + changes[i].trie_node_or_value_hash,
                rc: changes[i].rc,
            }),
{
}

impl ShardTries {
    /// Emits one refcount decrement per change of `changes`, keyed by shard
    /// and hash, in list order.
    fn apply_deletions_inner(
        &self,
        changes: &Vec<TrieRefcountChange>,
        shard_uid: ShardUId,
        store_update: &mut StoreUpdate,
    )
        requires
            forall|i: int|
                0 <= i < changes@.len() ==> (#[trigger] changes@[i]@).rc >= 1,
        ensures
            final(store_update)@ == old(store_update)@ + spec_decrement_ops(
                changes@.map_values(|c: TrieRefcountChange| c@),
                shard_uid,
            ),
    {
        let ghost cv = changes@.map_values(|c: TrieRefcountChange| c@);
        let mut i: usize = 0;
        let n = changes.len();
        while i < n
            invariant
                n == changes@.len(),
                cv == changes@.map_values(|c: TrieRefcountChange| c@),
                forall|j: int| 0 <= j < n ==> (#[trigger] cv[j]).rc >= 1,
                i <= n,
                store_update@ == old(store_update)@ + spec_decrement_ops(
                    cv.subrange(0, i as int),
                    shard_uid,
                ),
            decreases n - i,
        {
            let change = &changes[i];
            let key = TrieCachingStorage::get_key_from_shard_uid_and_hash(
                shard_uid,
                &change.trie_node_or_value_hash,
            );
            proof {
                assert(cv[i as int] == changes@[i as int]@);
            }
            store_update.decrement_refcount_by(DBCol::State, key.as_slice(), change.rc);
            proof {
                lemma_decrement_ops(cv.subrange(0, i as int), shard_uid);
                lemma_decrement_ops(cv.subrange(0, i + 1), shard_uid);
                assert(store_update@ =~= old(store_update)@ + spec_decrement_ops(
                    cv.subrange(0, i + 1),
                    shard_uid,
                )) by {
                    assert(forall|j: int| 0 <= j <= i ==> cv.subrange(0, i + 1)[j] == cv[j]);
                    assert(forall|j: int| 0 <= j < i ==> cv.subrange(0, i as int)[j] == cv[j]);
                }
            }
            i += 1;
        }
        proof {
            assert(cv.subrange(0, cv.len() as int) =~= cv);
        }
    }

    /// Emits one refcount increment per change of `changes`, carrying the
    /// node's bytes, keyed by shard and hash, in list order.
    fn apply_insertions_inner(
        &self,
        changes: &Vec<TrieRefcountChange>,
        shard_uid: ShardUId,
        store_update: &mut StoreUpdate,
    )
        requires
            forall|i: int|
                0 <= i < changes@.len() ==> (#[trigger] changes@[i]@).rc >= 1,
        ensures
            final(store_update)@ == old(store_update)@ + spec_increment_ops(
                changes@.map_values(|c: TrieRefcountChange| c@),
                shard_uid,
            ),
    {
        let ghost cv = changes@.map_values(|c: TrieRefcountChange| c@);
        let mut i: usize = 0;
        let n = changes.len();
        while i < n
            invariant
                n == changes@.len(),
                cv == changes@.map_values(|c: TrieRefcountChange| c@),
                forall|j: int| 0 <= j < n ==> (#[trigger] cv[j]).rc >= 1,
                i <= n,
                store_update@ == old(store_update)@ + spec_increment_ops(
                    cv.subrange(0, i as int),
                    shard_uid,
                ),
            decreases n - i,
        {
            let change = &changes[i];
            let key = TrieCachingStorage::get_key_from_shard_uid_and_hash(
                shard_uid,
                &change.trie_node_or_value_hash,
            );
            proof {
                assert(cv[i as int] == changes@[i as int]@);
            }
            store_update.increment_refcount_by(
                DBCol::State,
                key.as_slice(),
                change.trie_node_or_value.as_slice(),
                change.rc,
            );
            proof {
                lemma_increment_ops(cv.subrange(0, i as int), shard_uid);
                lemma_increment_ops(cv.subrange(0, i + 1), shard_uid);
                assert(store_update@ =~= old(store_update)@ + spec_increment_ops(
                    cv.subrange(0, i + 1),
                    shard_uid,
                )) by {
                    assert(forall|j: int| 0 <= j <= i ==> cv.subrange(0, i + 1)[j] == cv[j]);
                    assert(forall|j: int| 0 <= j < i ==> cv.subrange(0, i as int)[j] == cv[j]);
                }
            }
            i += 1;
        }
        proof {
            assert(cv.subrange(0, cv.len() as int) =~= cv);
        }
    }

    /// Starts a fresh batch and applies the changeset into it: always the
    /// insertions first, then — when asked for — the deletions.
    fn apply_all_inner(
        &self,
        trie_changes: &TrieChanges,
        shard_uid: ShardUId,
        apply_deletions: bool,
    ) -> (r: (StoreUpdate, StateRoot))
        requires
            trie_changes.spec_wf(),
        ensures
            apply_deletions ==> r.0@ == spec_increment_ops(
                trie_changes.spec_insertions(),
                shard_uid,
            ) + spec_decrement_ops(trie_changes.spec_deletions(), shard_uid),
            !apply_deletions ==> r.0@ == spec_increment_ops(
                trie_changes.spec_insertions(),
                shard_uid,
            ),
            r.1@ == trie_changes.new_root@,
    {
        let mut store_update = StoreUpdate::new();
        proof {
            crate::trie::lemma_insertion_views(trie_changes);
            assert forall|i: int|
                0 <= i < trie_changes.insertions@.len() implies (#[trigger] trie_changes
                .insertions@[i]@).rc >= 1 by {
                assert(trie_changes.spec_insertions()[i] == trie_changes.insertions@[i]@);
                assert(trie_changes.spec_insertions()[i].rc >= 1);
            }
            crate::trie::lemma_deletion_views(trie_changes);
            assert forall|i: int|
                0 <= i < trie_changes.deletions@.len() implies (#[trigger] trie_changes
                .deletions@[i]@).rc >= 1 by {
                assert(trie_changes.spec_deletions()[i] == trie_changes.deletions@[i]@);
                assert(trie_changes.spec_deletions()[i].rc >= 1);
            }
        }
        self.apply_insertions_inner(&trie_changes.insertions, shard_uid, &mut store_update);
        proof {
            assert(Seq::<DBOpView>::empty() + spec_increment_ops(
                trie_changes.spec_insertions(),
                shard_uid,
            ) =~= spec_increment_ops(trie_changes.spec_insertions(), shard_uid));
        }
        if apply_deletions {
            self.apply_deletions_inner(&trie_changes.deletions, shard_uid, &mut store_update);
        }
        (store_update, trie_changes.new_root.clone())
    }

    /// Appends the changeset's insertions to `store_update` as refcount
    /// increments, and counts them for the shard.
    pub fn apply_insertions(
        &mut self,
        trie_changes: &TrieChanges,
        shard_uid: ShardUId,
        store_update: &mut StoreUpdate,
    )
        requires
            trie_changes.spec_wf(),
        ensures
            final(store_update)@ == old(store_update)@ + spec_increment_ops(
                trie_changes.spec_insertions(),
                shard_uid,
            ),
            final(self).spec_metrics().applied_trie_insertions@ == crate::metrics::spec_counter_inc(
                old(self).spec_metrics().applied_trie_insertions@,
                shard_uid.shard_id,
                trie_changes.spec_insertions().len() as u64,
            ),
            final(self).spec_metrics().applied_trie_deletions@ == old(
                self,
            ).spec_metrics().applied_trie_deletions@,
            final(self).spec_metrics().reverted_trie_insertions@ == old(
                self,
            ).spec_metrics().reverted_trie_insertions@,
            final(self).spec_caches() == old(self).spec_caches(),
            final(self).spec_view_caches() == old(self).spec_view_caches(),
            final(self).spec_prefetchers() == old(self).spec_prefetchers(),
            final(self).spec_config() == old(self).spec_config(),
            final(self).spec_flat_state_factory() == old(self).spec_flat_state_factory(),
    {
        proof {
            crate::trie::lemma_insertion_views(trie_changes);
            assert forall|i: int|
                0 <= i < trie_changes.insertions@.len() implies (#[trigger] trie_changes
                .insertions@[i]@).rc >= 1 by {
                assert(trie_changes.spec_insertions()[i] == trie_changes.insertions@[i]@);
                assert(trie_changes.spec_insertions()[i].rc >= 1);
            }
        }
        self.metrics.applied_trie_insertions.inc_by(
            shard_uid.shard_id,
            trie_changes.insertions.len() as u64,
        );
        self.apply_insertions_inner(&trie_changes.insertions, shard_uid, store_update);
    }

    /// Appends the changeset's deletions to `store_update` as refcount
    /// decrements, and counts them for the shard.
    pub fn apply_deletions(
        &mut self,
        trie_changes: &TrieChanges,
        shard_uid: ShardUId,
        store_update: &mut StoreUpdate,
    )
        requires
            trie_changes.spec_wf(),
        ensures
            final(store_update)@ == old(store_update)@ + spec_decrement_ops(
                trie_changes.spec_deletions(),
                shard_uid,
            ),
            final(self).spec_metrics().applied_trie_deletions@ == crate::metrics::spec_counter_inc(
                old(self).spec_metrics().applied_trie_deletions@,
                shard_uid.shard_id,
                trie_changes.spec_deletions().len() as u64,
            ),
            final(self).spec_metrics().applied_trie_insertions@ == old(
                self,
            ).spec_metrics().applied_trie_insertions@,
            final(self).spec_metrics().reverted_trie_insertions@ == old(
                self,
            ).spec_metrics().reverted_trie_insertions@,
            final(self).spec_caches() == old(self).spec_caches(),
            final(self).spec_view_caches() == old(self).spec_view_caches(),
            final(self).spec_prefetchers() == old(self).spec_prefetchers(),
            final(self).spec_config() == old(self).spec_config(),
            final(self).spec_flat_state_factory() == old(self).spec_flat_state_factory(),
    {
        proof {
            crate::trie::lemma_deletion_views(trie_changes);
            assert forall|i: int|
                0 <= i < trie_changes.deletions@.len() implies (#[trigger] trie_changes
                .deletions@[i]@).rc >= 1 by {
                assert(trie_changes.spec_deletions()[i] == trie_changes.deletions@[i]@);
                assert(trie_changes.spec_deletions()[i].rc >= 1);
            }
        }
        self.metrics.applied_trie_deletions.inc_by(
            shard_uid.shard_id,
            trie_changes.deletions.len() as u64,
        );
        self.apply_deletions_inner(&trie_changes.deletions, shard_uid, store_update);
    }

    /// Undoes a previously applied changeset's insertions: the exact inverse
    /// of [`Self::apply_insertions`], reusing the decrement path against the
    /// insertion list, counted separately so rollback traffic stays
    /// distinguishable.
    pub fn revert_insertions(
        &mut self,
        trie_changes: &TrieChanges,
        shard_uid: ShardUId,
        store_update: &mut StoreUpdate,
    )
        requires
            trie_changes.spec_wf(),
        ensures
            final(store_update)@ == old(store_update)@ + spec_decrement_ops(
                trie_changes.spec_insertions(),
                shard_uid,
            ),
            final(self).spec_metrics().reverted_trie_insertions@
                == crate::metrics::spec_counter_inc(
                old(self).spec_metrics().reverted_trie_insertions@,
                shard_uid.shard_id,
                trie_changes.spec_insertions().len() as u64,
            ),
            final(self).spec_metrics().applied_trie_insertions@ == old(
                self,
            ).spec_metrics().applied_trie_insertions@,
            final(self).spec_metrics().applied_trie_deletions@ == old(
                self,
            ).spec_metrics().applied_trie_deletions@,
            final(self).spec_caches() == old(self).spec_caches(),
            final(self).spec_view_caches() == old(self).spec_view_caches(),
            final(self).spec_prefetchers() == old(self).spec_prefetchers(),
            final(self).spec_config() == old(self).spec_config(),
            final(self).spec_flat_state_factory() == old(self).spec_flat_state_factory(),
    {
        proof {
            crate::trie::lemma_insertion_views(trie_changes);
            assert forall|i: int|
                0 <= i < trie_changes.insertions@.len() implies (#[trigger] trie_changes
                .insertions@[i]@).rc >= 1 by {
                assert(trie_changes.spec_insertions()[i] == trie_changes.insertions@[i]@);
                assert(trie_changes.spec_insertions()[i].rc >= 1);
            }
        }
        self.metrics.reverted_trie_insertions.inc_by(
            shard_uid.shard_id,
            trie_changes.insertions.len() as u64,
        );
        self.apply_deletions_inner(&trie_changes.insertions, shard_uid, store_update);
    }

    /// Applies a whole changeset into a fresh batch — insertions always
    /// before deletions — and returns the batch with the diff's new root.
    ///
    /// The ordering is load-bearing: a node shared between the old and new
    /// tries may gain a reference and lose an unrelated one in the same
    /// changeset, and decrementing first could transiently drop a live
    /// node's count to zero.
    pub fn apply_all(&self, trie_changes: &TrieChanges, shard_uid: ShardUId) -> (r: (
        StoreUpdate,
        StateRoot,
    ))
        requires
            trie_changes.spec_wf(),
        ensures
            r.0@ == spec_increment_ops(trie_changes.spec_insertions(), shard_uid)
                + spec_decrement_ops(trie_changes.spec_deletions(), shard_uid),
            r.1@ == trie_changes.new_root@,
    {
        self.apply_all_inner(trie_changes, shard_uid, true)
    }
}

/// The batch built by applying a whole changeset holds every increment for
/// the insertions strictly before every decrement for the deletions, in
/// program order.
pub proof fn lemma_increments_before_decrements(
    ops: Seq<DBOpView>,
    insertions: Seq<TrieRefcountChangeView>,
    deletions: Seq<TrieRefcountChangeView>,
    shard_uid: ShardUId,
)
    requires
        ops == spec_increment_ops(insertions, shard_uid) + spec_decrement_ops(
            deletions,
            shard_uid,
        ),
    ensures
        ops.len() == insertions.len() + deletions.len(),
        forall|i: int| 0 <= i < insertions.len() ==> (#[trigger] ops[i]) is IncrementRefcount,
        forall|j: int|
            insertions.len() <= j < ops.len() ==> (#[trigger] ops[j]) is DecrementRefcount,
{
    lemma_increment_ops(insertions, shard_uid);
    lemma_decrement_ops(deletions, shard_uid);
}

/// The net effect one operation has on the count stored under `key`.
pub open spec fn spec_op_delta(op: DBOpView, key: Seq<u8>) -> int {
    match op {
        DBOpView::IncrementRefcount { col, key: k, rc, .. } => if col == DBCol::State && k
            == key {
            rc as int
        } else {
            0
        },
        DBOpView::DecrementRefcount { col, key: k, rc } => if col == DBCol::State && k == key {
            -(rc as int)
        } else {
            0
        },
        _ => 0,
    }
}

/// The net effect a whole batch has on the count stored under `key`.
pub open spec fn spec_net_delta(ops: Seq<DBOpView>, key: Seq<u8>) -> int
    decreases ops.len(),
{
    if ops.len() == 0 {
        0
    } else {
        spec_net_delta(ops.drop_last(), key) + spec_op_delta(ops.last(), key)
    }
}

/// Net deltas add up over concatenated batches.
pub proof fn lemma_net_delta_concat(a: Seq<DBOpView>, b: Seq<DBOpView>, key: Seq<u8>)
    ensures
        spec_net_delta(a + b, key) == spec_net_delta(a, key) + spec_net_delta(b, key),
    decreases b.len(),
{
    if b.len() == 0 {
        assert(a + b =~= a);
    } else {
        assert((a + b).drop_last() =~= a + b.drop_last());
        lemma_net_delta_concat(a, b.drop_last(), key);
    }
}

/// A list's decrements cancel its increments exactly, key by key.
pub proof fn lemma_increment_decrement_cancel(
    changes: Seq<TrieRefcountChangeView>,
    shard_uid: ShardUId,
    key: Seq<u8>,
)
    ensures
        spec_net_delta(spec_decrement_ops(changes, shard_uid), key) == -spec_net_delta(
            spec_increment_ops(changes, shard_uid),
            key,
        ),
    decreases changes.len(),
{
    lemma_increment_ops(changes, shard_uid);
    lemma_decrement_ops(changes, shard_uid);
    if changes.len() == 0 {
    } else {
        lemma_increment_decrement_cancel(changes.drop_last(), shard_uid, key);
        lemma_increment_ops(changes.drop_last(), shard_uid);
        lemma_decrement_ops(changes.drop_last(), shard_uid);
        assert(spec_increment_ops(changes, shard_uid).drop_last() =~= spec_increment_ops(
            changes.drop_last(),
            shard_uid,
        ));
        assert(spec_decrement_ops(changes, shard_uid).drop_last() =~= spec_decrement_ops(
            changes.drop_last(),
            shard_uid,
        ));
        assert(spec_increment_ops(changes, shard_uid).last() == spec_increment_ops(
            changes,
            shard_uid,
        )[changes.len() - 1]);
        assert(spec_decrement_ops(changes, shard_uid).last() == spec_decrement_ops(
            changes,
            shard_uid,
        )[changes.len() - 1]);
    }
}

/// Reverting a changeset's insertions and then re-applying them restores
/// every refcount delta to what the batch held before the revert: the
/// decrements for the insertion list and the matching increments cancel,
/// key by key.
pub proof fn lemma_revert_then_apply_restores_deltas(
    base: Seq<DBOpView>,
    insertions: Seq<TrieRefcountChangeView>,
    shard_uid: ShardUId,
    key: Seq<u8>,
)
    ensures
        spec_net_delta(
            base + spec_decrement_ops(insertions, shard_uid) + spec_increment_ops(
                insertions,
                shard_uid,
            ),
            key,
        ) == spec_net_delta(base, key),
{
    let dec = spec_decrement_ops(insertions, shard_uid);
    let inc = spec_increment_ops(insertions, shard_uid);
    lemma_net_delta_concat(base + dec, inc, key);
    lemma_net_delta_concat(base, dec, key);
    lemma_increment_decrement_cancel(insertions, shard_uid, key);
}

/// Client-mode cache maintenance is invisible to the view path: after any
/// operation that leaves the view registry untouched — synchronizing the
/// client caches from a batch, or resolving a client-mode cache — a
/// view-mode lookup that missed before still misses.
pub proof fn lemma_client_write_view_miss(
    pre: &ShardTries,
    post: &ShardTries,
    shard_uid: ShardUId,
    hash: Seq<u8>,
)
    requires
        post.spec_view_caches() == pre.spec_view_caches(),
        spec_kv_find(spec_resolved_content(pre.spec_view_caches(), shard_uid), hash) is None,
    ensures
        spec_kv_find(spec_resolved_content(post.spec_view_caches(), shard_uid), hash) is None,
{
}

/// Looking up `probe` after pushing an entry for `uid`.
pub proof fn lemma_registry_find_push(
    r: CacheRegistryView,
    uid: ShardUId,
    content: Seq<KvEntryView>,
    probe: ShardUId,
)
    ensures
        spec_registry_find(r.push((uid, content)), probe) == if spec_registry_find(
            r,
            probe,
        ) is Some {
            spec_registry_find(r, probe)
        } else if probe == uid {
            Some(content)
        } else {
            None
        },
    decreases r.len(),
{
    if r.len() == 0 {
        assert(r.push((uid, content))[0] == (uid, content));
        if probe != uid {
            assert(r.push((uid, content)).drop_first() =~= Seq::<
                (ShardUId, Seq<KvEntryView>),
            >::empty());
        }
    } else {
        assert(r.push((uid, content)).drop_first() =~= r.drop_first().push((uid, content)));
        lemma_registry_find_push(r.drop_first(), uid, content, probe);
    }
}

/// Resolving the same shard and mode twice without an intervening mutation
/// is idempotent: the second resolution leaves the registry as the first
/// left it, and both handles observe identical cache content.
pub proof fn lemma_resolve_idempotent(r: CacheRegistryView, uid: ShardUId)
    ensures
        spec_registry_resolve(spec_registry_resolve(r, uid), uid) == spec_registry_resolve(
            r,
            uid,
        ),
        spec_resolved_content(spec_registry_resolve(r, uid), uid) == spec_resolved_content(
            r,
            uid,
        ),
{
    if !spec_registry_contains(r, uid) {
        lemma_registry_find_push(r, uid, Seq::empty(), uid);
    }
}

/// The registry over `uids`: one empty cache per shard, in order.
pub open spec fn spec_initial_registry(uids: Seq<ShardUId>) -> CacheRegistryView {
    uids.map_values(|u: ShardUId| (u, Seq::<KvEntryView>::empty()))
}

/// Unfolds [`spec_initial_registry`] pointwise.
pub proof fn lemma_initial_registry(uids: Seq<ShardUId>)
    ensures
        spec_initial_registry(uids).len() == uids.len(),
        forall|i: int|
            0 <= i < uids.len() ==> #[trigger] spec_initial_registry(uids)[i] == (
                uids[i],
                Seq::<KvEntryView>::empty(),
            ),
{
}

/// Get-or-create inside one registry vector.
fn resolve_in_registry(
    registry: &mut Vec<(ShardUId, TrieCache)>,
    config: &TrieConfig,
    shard_uid: ShardUId,
    is_view: bool,
) -> (r: TrieCache)
    ensures
        r@ == spec_resolved_content(registry_views(old(registry)@), shard_uid),
        registry_views(final(registry)@) == spec_registry_resolve(
            registry_views(old(registry)@),
            shard_uid,
        ),
{
    let ghost rv = registry_views(registry@);
    proof {
        lemma_registry_views(registry@);
    }
    let mut i: usize = 0;
    let n = registry.len();
    while i < n
        invariant
            n == registry@.len(),
            i <= n,
            rv == registry_views(registry@),
            forall|j: int| 0 <= j < i ==> rv[j].0 != shard_uid,
        decreases n - i,
    {
        proof {
            lemma_registry_views(registry@);
        }
        if registry[i].0 == shard_uid {
            proof {
                lemma_registry_find_at(rv, shard_uid, i as int);
            }
            return registry[i].1.clone();
        }
        i += 1;
    }
    proof {
        lemma_registry_find_none(rv, shard_uid);
    }
    let fresh = TrieCache::new(config, shard_uid, is_view);
    let handle = TrieCache::new(config, shard_uid, is_view);
    let ghost before = registry@;
    registry.push((shard_uid, fresh));
    proof {
        lemma_registry_views(before);
        lemma_registry_views(registry@);
        assert(registry_views(registry@) =~= spec_registry_resolve(rv, shard_uid));
    }
    handle
}


/// The change-log write one record contributes: nothing for an unlogged
/// kind, one plain write of the encoded record under its block-scoped key
/// for the four account-scoped kinds.
pub open spec fn spec_log_op(r: RawStateChangesView, block_hash: Seq<u8>) -> Seq<DBOpView> {
    if spec_is_logged(r.trie_key) {
        seq![
            DBOpView::Put {
                col: DBCol::StateChanges,
                key: block_hash + spec_trie_key_bytes(r.trie_key),
                value: spec_enc_record(r),
            },
        ]
    } else {
        Seq::empty()
    }
}

/// The change-log writes of a record list, in order.
pub open spec fn spec_logged_ops(records: Seq<RawStateChangesView>, block_hash: Seq<u8>) -> Seq<
    DBOpView,
>
    decreases records.len(),
{
    if records.len() == 0 {
        Seq::empty()
    } else {
        spec_logged_ops(records.drop_last(), block_hash) + spec_log_op(
            records.last(),
            block_hash,
        )
    }
}

/// A record list carries no cause that is forbidden on the flush path.
pub open spec fn spec_causes_writable(records: Seq<RawStateChangesView>) -> bool {
    forall|i: int, j: int|
        0 <= i < records.len() && 0 <= j < records[i].changes.len() ==> {
            let cause = (#[trigger] records[i].changes[j]).cause;
            cause != StateChangeCause::NotWritableToDisk && cause != StateChangeCause::Resharding
        }
}

/// A diff wrapped with its correlated account-level changes and block hash:
/// what one (block, shard) application hands to the commit path.
#[derive(Debug)]
pub struct WrappedTrieChanges {
    pub shard_uid: ShardUId,
    pub trie_changes: TrieChanges,
    pub state_changes: Vec<RawStateChangesWithTrieKey>,
    pub block_hash: CryptoHash,
}

impl WrappedTrieChanges {
    /// Wraps a computed diff with its account-level changes and block hash.
    pub fn new(
        shard_uid: ShardUId,
        trie_changes: TrieChanges,
        state_changes: Vec<RawStateChangesWithTrieKey>,
        block_hash: CryptoHash,
    ) -> (r: WrappedTrieChanges)
        ensures
            r.shard_uid == shard_uid,
            r.trie_changes == trie_changes,
            record_views(r.state_changes@) == record_views(state_changes@),
            r.block_hash@ == block_hash@,
    {
        WrappedTrieChanges { shard_uid, trie_changes, state_changes, block_hash }
    }

    /// The account-level changes still waiting to be flushed.
    pub fn state_changes(&self) -> (r: &Vec<RawStateChangesWithTrieKey>)
        ensures
            record_views(r@) == record_views(self.state_changes@),
    {
        &self.state_changes
    }

    /// Saves the diff's insertions into the batch.
    pub fn insertions_into(&self, tries: &mut ShardTries, store_update: &mut StoreUpdate)
        requires
            self.trie_changes.spec_wf(),
        ensures
            final(store_update)@ == old(store_update)@ + spec_increment_ops(
                self.trie_changes.spec_insertions(),
                self.shard_uid,
            ),
            final(tries).spec_metrics().applied_trie_insertions@
                == crate::metrics::spec_counter_inc(
                old(tries).spec_metrics().applied_trie_insertions@,
                self.shard_uid.shard_id,
                self.trie_changes.spec_insertions().len() as u64,
            ),
            final(tries).spec_caches() == old(tries).spec_caches(),
            final(tries).spec_view_caches() == old(tries).spec_view_caches(),
            final(tries).spec_prefetchers() == old(tries).spec_prefetchers(),
    {
        tries.apply_insertions(&self.trie_changes, self.shard_uid, store_update)
    }

    /// Saves the diff's deletions into the batch.
    pub fn deletions_into(&self, tries: &mut ShardTries, store_update: &mut StoreUpdate)
        requires
            self.trie_changes.spec_wf(),
        ensures
            final(store_update)@ == old(store_update)@ + spec_decrement_ops(
                self.trie_changes.spec_deletions(),
                self.shard_uid,
            ),
            final(tries).spec_metrics().applied_trie_deletions@
                == crate::metrics::spec_counter_inc(
                old(tries).spec_metrics().applied_trie_deletions@,
                self.shard_uid.shard_id,
                self.trie_changes.spec_deletions().len() as u64,
            ),
            final(tries).spec_caches() == old(tries).spec_caches(),
            final(tries).spec_view_caches() == old(tries).spec_view_caches(),
            final(tries).spec_prefetchers() == old(tries).spec_prefetchers(),
    {
        tries.apply_deletions(&self.trie_changes, self.shard_uid, store_update)
    }

    /// Flushes the account-level changes into the batch and drains them:
    /// one write per record of a logged trie-key kind, under the
    /// block-scoped key, carrying the encoded record; the other kinds are
    /// silently skipped.  A record whose cause marks it as not writable to
    /// disk, or as a resharding artifact, must never reach this path.
    pub fn state_changes_into(&mut self, store_update: &mut StoreUpdate)
        requires
            spec_causes_writable(record_views(old(self).state_changes@)),
        ensures
            final(self).state_changes@.len() == 0,
            final(self).shard_uid == old(self).shard_uid,
            final(self).trie_changes == old(self).trie_changes,
            final(self).block_hash == old(self).block_hash,
            final(store_update)@ == old(store_update)@ + spec_logged_ops(
                record_views(old(self).state_changes@),
                old(self).block_hash@,
            ),
    {
        let ghost rv = record_views(self.state_changes@);
        let ghost bh = self.block_hash@;
        let mut i: usize = 0;
        let n = self.state_changes.len();
        while i < n
            invariant
                n == self.state_changes@.len(),
                rv == record_views(self.state_changes@),
                bh == self.block_hash@,
                self.state_changes@ == old(self).state_changes@,
                self.shard_uid == old(self).shard_uid,
                self.trie_changes == old(self).trie_changes,
                self.block_hash == old(self).block_hash,
                i <= n,
                store_update@ == old(store_update)@ + spec_logged_ops(
                    rv.subrange(0, i as int),
                    bh,
                ),
            decreases n - i,
        {
            proof {
                lemma_record_views(self.state_changes@);
                assert(rv.subrange(0, i + 1).drop_last() =~= rv.subrange(0, i as int));
                assert(rv.subrange(0, i + 1).last() == rv[i as int]);
            }
            let record = &self.state_changes[i];
            if record.trie_key.is_logged() {
                let key = KeyForStateChanges::from_trie_key(&self.block_hash, &record.trie_key);
                let value = crate::state_changes::encode_state_changes(record);
                store_update.set(DBCol::StateChanges, key.into_bytes(), value);
            }
            proof {
                assert(store_update@ =~= old(store_update)@ + spec_logged_ops(
                    rv.subrange(0, i + 1),
                    bh,
                ));
            }
            i += 1;
        }
        proof {
            assert(rv.subrange(0, rv.len() as int) =~= rv);
        }
        self.state_changes = Vec::new();
    }

    /// Saves the whole diff into the batch, encoded under the block-scoped,
    /// shard-scoped key.
    pub fn trie_changes_into(&self, store_update: &mut StoreUpdate)
        ensures
            final(store_update)@ == old(store_update)@.push(
                DBOpView::Put {
                    col: DBCol::TrieChanges,
                    key: crate::shard_uid::spec_block_shard_uid_bytes(
                        self.block_hash@,
                        self.shard_uid,
                    ),
                    value: crate::trie::spec_enc_trie_changes(
                        self.trie_changes.spec_insertions(),
                        self.trie_changes.spec_deletions(),
                        self.trie_changes.new_root@,
                    ),
                },
            ),
    {
        let key = crate::shard_uid::get_block_shard_uid(&self.block_hash, &self.shard_uid);
        let value = crate::trie::encode_trie_changes(&self.trie_changes);
        store_update.set(DBCol::TrieChanges, key, value);
    }
}

} // verus!
