//! The trie object this layer constructs, and the diffs it applies.
//!
//! The Merkle traversal itself is a collaborator; a [`Trie`] here records the
//! wiring a caller receives: which shard's cache it reads through, in which
//! access mode, at which state root, with which accelerator and prefetcher.

use vstd::prelude::*;
use vstd::bytes::{spec_u64_to_le_bytes, u64_to_le_bytes};
use crate::flat_state::FlatState;
use crate::hash::{CryptoHash, StateRoot};
use crate::state_changes::spec_enc_bytes;
use crate::trie_storage::TrieCachingStorage;

verus! {

/// A ready-to-use trie view over one shard at one state root.
#[derive(Debug)]
pub struct Trie {
    pub storage: TrieCachingStorage,
    pub state_root: StateRoot,
    pub flat_state: Option<FlatState>,
}

impl Trie {
    /// Wires a trie over a caching storage adapter, a root and an optional
    /// flat-state accelerator.
    pub fn new(storage: TrieCachingStorage, state_root: StateRoot, flat_state: Option<FlatState>)
        -> (r: Trie)
        ensures
            r.storage == storage,
            r.state_root@ == state_root@,
            r.flat_state == flat_state,
    {
        Trie { storage, state_root, flat_state }
    }
}

/// A trie together with an overlay of uncommitted updates; the overlay is
/// the caller's, this layer only builds the underlying trie.
#[derive(Debug)]
pub struct TrieUpdate {
    pub trie: Trie,
}

impl TrieUpdate {
    /// Wraps a freshly built trie.
    pub fn new(trie: Trie) -> (r: TrieUpdate)
        ensures
            r.trie == trie,
    {
        TrieUpdate { trie }
    }
}

/// One reference-count adjustment of a content-addressed node or value.
/// The bytes are carried for inserts, so a fresh entry can be created, and
/// are ignored by pure decrements.
#[derive(Debug)]
pub struct TrieRefcountChange {
    pub trie_node_or_value_hash: CryptoHash,
    pub trie_node_or_value: Vec<u8>,
    pub rc: u32,
}

/// The mathematical shape of one reference-count adjustment.
pub struct TrieRefcountChangeView {
    pub trie_node_or_value_hash: Seq<u8>,
    pub trie_node_or_value: Seq<u8>,
    pub rc: u32,
}

impl View for TrieRefcountChange {
    type V = TrieRefcountChangeView;

    open spec fn view(&self) -> TrieRefcountChangeView {
        TrieRefcountChangeView {
            trie_node_or_value_hash: self.trie_node_or_value_hash@,
            trie_node_or_value: self.trie_node_or_value@,
            rc: self.rc,
        }
    }
}

/// The diff one state-transition application produces: the nodes to insert,
/// the nodes to drop a reference to, and the new root.  Immutable once
/// created.
#[derive(Debug)]
pub struct TrieChanges {
    pub insertions: Vec<TrieRefcountChange>,
    pub deletions: Vec<TrieRefcountChange>,
    pub new_root: StateRoot,
}

impl TrieChanges {
    /// The views of the insertion list.
    pub open spec fn spec_insertions(&self) -> Seq<TrieRefcountChangeView> {
        self.insertions@.map_values(|c: TrieRefcountChange| c@)
    }

    /// The views of the deletion list.
    pub open spec fn spec_deletions(&self) -> Seq<TrieRefcountChangeView> {
        self.deletions@.map_values(|c: TrieRefcountChange| c@)
    }

    /// Every adjustment of a well-formed diff moves the count by at least
    /// one.
    pub open spec fn spec_wf(&self) -> bool {
        &&& forall|i: int|
            0 <= i < self.spec_insertions().len() ==> (#[trigger] self.spec_insertions()[i]).rc
                >= 1
        &&& forall|i: int|
            0 <= i < self.spec_deletions().len() ==> (#[trigger] self.spec_deletions()[i]).rc >= 1
    }
}

/// Unfolds [`TrieChanges::spec_insertions`] pointwise.
pub proof fn lemma_insertion_views(c: &TrieChanges)
    ensures
        c.spec_insertions().len() == c.insertions@.len(),
        forall|i: int|
            0 <= i < c.insertions@.len() ==> #[trigger] c.spec_insertions()[i] == c.insertions@[i]@,
{
}

/// Unfolds [`TrieChanges::spec_deletions`] pointwise.
pub proof fn lemma_deletion_views(c: &TrieChanges)
    ensures
        c.spec_deletions().len() == c.deletions@.len(),
        forall|i: int|
            0 <= i < c.deletions@.len() ==> #[trigger] c.spec_deletions()[i] == c.deletions@[i]@,
{
}


/// One refcount adjustment's bytes in a stored diff: the hash, the
/// length-prefixed content, the delta.
pub open spec fn spec_enc_rc_change(c: TrieRefcountChangeView) -> Seq<u8> {
    c.trie_node_or_value_hash + spec_enc_bytes(c.trie_node_or_value) + spec_u64_to_le_bytes(
        c.rc as u64,
    )
}

/// An adjustment list's bytes.
pub open spec fn spec_enc_rc_list(s: Seq<TrieRefcountChangeView>) -> Seq<u8>
    decreases s.len(),
{
    if s.len() == 0 {
        Seq::empty()
    } else {
        spec_enc_rc_change(s[0]) + spec_enc_rc_list(s.drop_first())
    }
}

/// Encoding distributes over appending an adjustment at the end.
pub proof fn lemma_enc_rc_list_push(s: Seq<TrieRefcountChangeView>, c: TrieRefcountChangeView)
    ensures
        spec_enc_rc_list(s.push(c)) == spec_enc_rc_list(s) + spec_enc_rc_change(c),
    decreases s.len(),
{
    if s.len() == 0 {
        assert(s.push(c)[0] == c);
        assert(s.push(c).drop_first() =~= Seq::<TrieRefcountChangeView>::empty());
        assert(spec_enc_rc_list(s) + spec_enc_rc_change(c) =~= spec_enc_rc_change(c));
        assert(spec_enc_rc_change(c) + spec_enc_rc_list(Seq::<TrieRefcountChangeView>::empty())
            =~= spec_enc_rc_change(c));
    } else {
        assert(s.push(c)[0] == s[0]);
        assert(s.push(c).drop_first() =~= s.drop_first().push(c));
        lemma_enc_rc_list_push(s.drop_first(), c);
        assert(spec_enc_rc_change(s[0]) + (spec_enc_rc_list(s.drop_first()) + spec_enc_rc_change(
            c,
        )) =~= (spec_enc_rc_change(s[0]) + spec_enc_rc_list(s.drop_first()))
            + spec_enc_rc_change(c));
    }
}

/// A whole diff's bytes: the counted insertions, the counted deletions, the
/// new root.
pub open spec fn spec_enc_trie_changes(
    insertions: Seq<TrieRefcountChangeView>,
    deletions: Seq<TrieRefcountChangeView>,
    new_root: Seq<u8>,
) -> Seq<u8> {
    spec_u64_to_le_bytes(insertions.len() as u64) + spec_enc_rc_list(insertions)
        + spec_u64_to_le_bytes(deletions.len() as u64) + spec_enc_rc_list(deletions) + new_root
}

/// Appends one adjustment list, with its count, to `out`.
fn enc_rc_list_exec(out: &mut Vec<u8>, changes: &Vec<TrieRefcountChange>)
    ensures
        final(out)@ == old(out)@ + spec_u64_to_le_bytes(changes@.len() as u64)
            + spec_enc_rc_list(changes@.map_values(|c: TrieRefcountChange| c@)),
{
    let ghost cv = changes@.map_values(|c: TrieRefcountChange| c@);
    let mut count = u64_to_le_bytes(changes.len() as u64);
    out.append(&mut count);
    let ghost head = old(out)@ + spec_u64_to_le_bytes(changes@.len() as u64);
    proof {
        assert(out@ =~= head + spec_enc_rc_list(cv.subrange(0, 0)));
    }
    let mut i: usize = 0;
    let n = changes.len();
    while i < n
        invariant
            n == changes@.len(),
            cv == changes@.map_values(|c: TrieRefcountChange| c@),
            head == old(out)@ + spec_u64_to_le_bytes(changes@.len() as u64),
            i <= n,
            out@ == head + spec_enc_rc_list(cv.subrange(0, i as int)),
        decreases n - i,
    {
        let c = &changes[i];
        crate::bytes::extend_bytes(out, c.trie_node_or_value_hash.as_bytes().as_slice());
        let mut len_bytes = u64_to_le_bytes(c.trie_node_or_value.len() as u64);
        out.append(&mut len_bytes);
        crate::bytes::extend_bytes(out, c.trie_node_or_value.as_slice());
        let mut rc_bytes = u64_to_le_bytes(c.rc as u64);
        out.append(&mut rc_bytes);
        proof {
            assert(cv[i as int] == changes@[i as int]@);
            assert(cv.subrange(0, i + 1) =~= cv.subrange(0, i as int).push(cv[i as int]));
            lemma_enc_rc_list_push(cv.subrange(0, i as int), cv[i as int]);
            assert(out@ =~= head + spec_enc_rc_list(cv.subrange(0, i + 1)));
        }
        i += 1;
    }
    proof {
        assert(cv.subrange(0, cv.len() as int) =~= cv);
    }
}

/// Encodes a diff for its per-block, per-shard storage slot.
pub fn encode_trie_changes(trie_changes: &TrieChanges) -> (r: Vec<u8>)
    ensures
        r@ == spec_enc_trie_changes(
            trie_changes.spec_insertions(),
            trie_changes.spec_deletions(),
            trie_changes.new_root@,
        ),
{
    let mut out: Vec<u8> = Vec::new();
    enc_rc_list_exec(&mut out, &trie_changes.insertions);
    enc_rc_list_exec(&mut out, &trie_changes.deletions);
    crate::bytes::extend_bytes(&mut out, trie_changes.new_root.as_bytes().as_slice());
    proof {
        assert(out@ =~= spec_enc_trie_changes(
            trie_changes.spec_insertions(),
            trie_changes.spec_deletions(),
            trie_changes.new_root@,
        ));
    }
    out
}

} // verus!
