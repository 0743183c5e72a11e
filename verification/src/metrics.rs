//! Counters of applied trie changes, labeled by shard.
//!
//! The observability backend is a collaborator; this layer only counts.  The
//! counters are owned by the registry that applies the changes, so the core
//! stays testable without a live metrics backend.

use vstd::prelude::*;

verus! {

/// One per-shard count.
#[derive(Clone, Copy, Debug, PartialEq, Eq, Structural)]
pub struct CounterEntry {
    pub shard_id: u32,
    pub count: u64,
}

/// `a + b`, stopping at the largest count.
pub open spec fn spec_counter_sat_add(a: u64, b: u64) -> u64 {
    if a + b > u64::MAX {
        u64::MAX
    } else {
        (a + b) as u64
    }
}

/// The count recorded for `shard_id`, zero when the shard was never counted.
pub open spec fn spec_counter_get(s: Seq<CounterEntry>, shard_id: u32) -> u64
    decreases s.len(),
{
    if s.len() == 0 {
        0u64
    } else if s[0].shard_id == shard_id {
        s[0].count
    } else {
        spec_counter_get(s.drop_first(), shard_id)
    }
}

/// Counting `n` more for `shard_id`: an existing entry grows (saturating), a
/// missing shard gets a fresh entry.
pub open spec fn spec_counter_inc(s: Seq<CounterEntry>, shard_id: u32, n: u64) -> Seq<CounterEntry>
    decreases s.len(),
{
    if s.len() == 0 {
        seq![CounterEntry { shard_id, count: n }]
    } else if s[0].shard_id == shard_id {
        seq![CounterEntry { shard_id, count: spec_counter_sat_add(s[0].count, n) }]
            + s.drop_first()
    } else {
        seq![s[0]] + spec_counter_inc(s.drop_first(), shard_id, n)
    }
}

/// What counting does to lookups: the counted shard grows, the others keep
/// their counts.
pub proof fn lemma_counter_inc_get(s: Seq<CounterEntry>, shard_id: u32, n: u64, probe: u32)
    ensures
        probe == shard_id ==> spec_counter_get(spec_counter_inc(s, shard_id, n), probe)
            == spec_counter_sat_add(spec_counter_get(s, probe), n),
        probe != shard_id ==> spec_counter_get(spec_counter_inc(s, shard_id, n), probe)
            == spec_counter_get(s, probe),
    decreases s.len(),
{
    if s.len() == 0 {
        let r = spec_counter_inc(s, shard_id, n);
        assert(r.len() == 1 && r[0] == (CounterEntry { shard_id, count: n }));
        if probe != shard_id {
            assert(r.drop_first().len() == 0);
            assert(spec_counter_get(r, probe) == spec_counter_get(r.drop_first(), probe));
        }
    } else if s[0].shard_id == shard_id {
        let r = spec_counter_inc(s, shard_id, n);
        assert(r[0] == (CounterEntry { shard_id, count: spec_counter_sat_add(s[0].count, n) }));
        assert(r.drop_first() =~= s.drop_first());
        if probe != shard_id {
            assert(spec_counter_get(r, probe) == spec_counter_get(r.drop_first(), probe));
            assert(spec_counter_get(s, probe) == spec_counter_get(s.drop_first(), probe));
        }
    } else {
        lemma_counter_inc_get(s.drop_first(), shard_id, n, probe);
        let r = spec_counter_inc(s, shard_id, n);
        assert(r[0] == s[0]);
        assert(r.drop_first() =~= spec_counter_inc(s.drop_first(), shard_id, n));
        assert(spec_counter_get(r, probe) == if s[0].shard_id == probe {
            s[0].count
        } else {
            spec_counter_get(r.drop_first(), probe)
        });
    }
}

/// A monotone counter with one count per shard.
#[derive(Debug)]
pub struct ShardCounter {
    entries: Vec<CounterEntry>,
}

impl View for ShardCounter {
    type V = Seq<CounterEntry>;

    closed spec fn view(&self) -> Seq<CounterEntry> {
        self.entries@
    }
}

/// Counting over entry vectors.
fn counter_inc_entries(s: &[CounterEntry], shard_id: u32, n: u64) -> (r: Vec<CounterEntry>)
    ensures
        r@ == spec_counter_inc(s@, shard_id, n),
    decreases s@.len(),
{
    if s.len() == 0 {
        let mut r: Vec<CounterEntry> = Vec::new();
        r.push(CounterEntry { shard_id, count: n });
        proof {
            assert(r@ =~= spec_counter_inc(s@, shard_id, n));
        }
        r
    } else {
        let head = *vstd::slice::slice_index_get(s, 0);
        let rest = vstd::slice::slice_subrange(s, 1, s.len());
        proof {
            assert(rest@ =~= s@.drop_first());
        }
        if head.shard_id == shard_id {
            let count = if head.count > u64::MAX - n {
                u64::MAX
            } else {
                head.count + n
            };
            let mut r = vstd::slice::slice_to_vec(rest);
            r.insert(0, CounterEntry { shard_id, count });
            proof {
                assert(r@ =~= spec_counter_inc(s@, shard_id, n));
            }
            r
        } else {
            let mut r = counter_inc_entries(rest, shard_id, n);
            r.insert(0, head);
            proof {
                assert(r@ =~= spec_counter_inc(s@, shard_id, n));
            }
            r
        }
    }
}

impl ShardCounter {
    /// A counter with nothing counted yet.
    pub fn new() -> (r: ShardCounter)
        ensures
            r@ =~= Seq::<CounterEntry>::empty(),
    {
        ShardCounter { entries: Vec::new() }
    }

    /// Counts `n` more for `shard_id`.
    pub fn inc_by(&mut self, shard_id: u32, n: u64)
        ensures
            final(self)@ == spec_counter_inc(old(self)@, shard_id, n),
    {
        let updated = counter_inc_entries(self.entries.as_slice(), shard_id, n);
        self.entries = updated;
    }

    /// The count recorded for `shard_id`, zero when never counted.
    pub fn get(&self, shard_id: u32) -> (r: u64)
        ensures
            r == spec_counter_get(self@, shard_id),
        decreases self@.len(),
    {
        counter_get_entries(self.entries.as_slice(), shard_id)
    }
}

/// A lookup over entry vectors.
fn counter_get_entries(s: &[CounterEntry], shard_id: u32) -> (r: u64)
    ensures
        r == spec_counter_get(s@, shard_id),
    decreases s@.len(),
{
    if s.len() == 0 {
        0
    } else {
        let head = *vstd::slice::slice_index_get(s, 0);
        let rest = vstd::slice::slice_subrange(s, 1, s.len());
        proof {
            assert(rest@ =~= s@.drop_first());
        }
        if head.shard_id == shard_id {
            head.count
        } else {
            counter_get_entries(rest, shard_id)
        }
    }
}

/// The three counters the changeset applier maintains: forward insertions,
/// forward deletions, and insertions undone by a rollback.  The third is
/// separate so rollback traffic stays distinguishable from forward
/// application.
#[derive(Debug)]
pub struct TrieChangeMetrics {
    pub applied_trie_insertions: ShardCounter,
    pub applied_trie_deletions: ShardCounter,
    pub reverted_trie_insertions: ShardCounter,
}

impl TrieChangeMetrics {
    /// All three counters at zero.
    pub fn new() -> (r: TrieChangeMetrics)
        ensures
            r.applied_trie_insertions@ =~= Seq::<CounterEntry>::empty(),
            r.applied_trie_deletions@ =~= Seq::<CounterEntry>::empty(),
            r.reverted_trie_insertions@ =~= Seq::<CounterEntry>::empty(),
    {
        TrieChangeMetrics {
            applied_trie_insertions: ShardCounter::new(),
            applied_trie_deletions: ShardCounter::new(),
            reverted_trie_insertions: ShardCounter::new(),
        }
    }
}

} // verus!
