//! The store interface this layer builds against: columns, batch operations,
//! the batch builder, and an in-memory model of the persistent store.
//!
//! The core never commits directly; it only accumulates operations in a
//! [`StoreUpdate`].  The one unit of atomicity is the commit of a whole
//! transaction, which the store owns.

use vstd::prelude::*;
use crate::bytes::extend_bytes;

verus! {

/// The storage columns this layer touches.
#[derive(Clone, Copy, Debug, PartialEq, Eq, Structural)]
pub enum DBCol {
    /// Reference-counted trie nodes and values, keyed by shard and hash.
    State,
    /// The block-scoped change log over account-level state changes.
    StateChanges,
    /// Per-block, per-shard trie diffs.
    TrieChanges,
}

/// One operation of a batch.
#[derive(Debug)]
pub enum DBOp {
    /// Store `value` under `key`, replacing any earlier value.
    Put { col: DBCol, key: Vec<u8>, value: Vec<u8> },
    /// Store `value` under a `key` that is expected to be fresh.
    Insert { col: DBCol, key: Vec<u8>, value: Vec<u8> },
    /// Remove the value under `key`.
    Delete { col: DBCol, key: Vec<u8> },
    /// Remove every value of the column.
    DeleteAll { col: DBCol },
    /// Raise the reference count under `key` by `rc`, carrying the content
    /// bytes so a fresh entry can be created.
    IncrementRefcount { col: DBCol, key: Vec<u8>, value: Vec<u8>, rc: u32 },
    /// Lower the reference count under `key` by `rc`.
    DecrementRefcount { col: DBCol, key: Vec<u8>, rc: u32 },
}

/// The mathematical shape of a batch operation.
pub enum DBOpView {
    Put { col: DBCol, key: Seq<u8>, value: Seq<u8> },
    Insert { col: DBCol, key: Seq<u8>, value: Seq<u8> },
    Delete { col: DBCol, key: Seq<u8> },
    DeleteAll { col: DBCol },
    IncrementRefcount { col: DBCol, key: Seq<u8>, value: Seq<u8>, rc: u32 },
    DecrementRefcount { col: DBCol, key: Seq<u8>, rc: u32 },
}

impl View for DBOp {
    type V = DBOpView;

    open spec fn view(&self) -> DBOpView {
        match self {
            DBOp::Put { col, key, value } => DBOpView::Put {
                col: *col,
                key: key@,
                value: value@,
            },
            DBOp::Insert { col, key, value } => DBOpView::Insert {
                col: *col,
                key: key@,
                value: value@,
            },
            DBOp::Delete { col, key } => DBOpView::Delete { col: *col, key: key@ },
            DBOp::DeleteAll { col } => DBOpView::DeleteAll { col: *col },
            DBOp::IncrementRefcount { col, key, value, rc } => DBOpView::IncrementRefcount {
                col: *col,
                key: key@,
                value: value@,
                rc: *rc,
            },
            DBOp::DecrementRefcount { col, key, rc } => DBOpView::DecrementRefcount {
                col: *col,
                key: key@,
                rc: *rc,
            },
        }
    }
}

/// A batch of operations, applied atomically by the store or not at all.
#[derive(Debug)]
pub struct DBTransaction {
    pub ops: Vec<DBOp>,
}

impl View for DBTransaction {
    type V = Seq<DBOpView>;

    open spec fn view(&self) -> Seq<DBOpView> {
        self.ops@.map_values(|op: DBOp| op@)
    }
}

/// An open batch being accumulated before its one atomic commit.
#[derive(Debug)]
pub struct StoreUpdate {
    pub transaction: DBTransaction,
}

impl View for StoreUpdate {
    type V = Seq<DBOpView>;

    open spec fn view(&self) -> Seq<DBOpView> {
        self.transaction@
    }
}

impl StoreUpdate {
    /// A batch with no operations yet.
    pub fn new() -> (r: StoreUpdate)
        ensures
            r@ =~= Seq::<DBOpView>::empty(),
    {
        StoreUpdate { transaction: DBTransaction { ops: Vec::new() } }
    }

    /// Appends a plain write of `value` under `key`.
    pub fn set(&mut self, col: DBCol, key: Vec<u8>, value: Vec<u8>)
        ensures
            final(self)@ =~= old(self)@.push(
                DBOpView::Put { col, key: key@, value: value@ },
            ),
    {
        self.transaction.ops.push(DBOp::Put { col, key, value });
    }

    /// Appends a refcount increment of `rc` under `key`, carrying the content
    /// bytes `data`.
    pub fn increment_refcount_by(&mut self, col: DBCol, key: &[u8], data: &[u8], rc: u32)
        requires
            rc >= 1,
        ensures
            final(self)@ =~= old(self)@.push(
                DBOpView::IncrementRefcount { col, key: key@, value: data@, rc },
            ),
    {
        let mut key_copy: Vec<u8> = Vec::new();
        extend_bytes(&mut key_copy, key);
        let mut value: Vec<u8> = Vec::new();
        extend_bytes(&mut value, data);
        proof {
            assert(key_copy@ =~= key@);
            assert(value@ =~= data@);
        }
        self.transaction.ops.push(DBOp::IncrementRefcount { col, key: key_copy, value, rc });
    }

    /// Appends a refcount decrement of `rc` under `key`.
    pub fn decrement_refcount_by(&mut self, col: DBCol, key: &[u8], rc: u32)
        requires
            rc >= 1,
        ensures
            final(self)@ =~= old(self)@.push(DBOpView::DecrementRefcount { col, key: key@, rc }),
    {
        let mut key_copy: Vec<u8> = Vec::new();
        extend_bytes(&mut key_copy, key);
        proof {
            assert(key_copy@ =~= key@);
        }
        self.transaction.ops.push(DBOp::DecrementRefcount { col, key: key_copy, rc });
    }

    /// Hands the accumulated operations over for committing.
    pub fn into_transaction(self) -> (r: DBTransaction)
        ensures
            r@ == self@,
    {
        self.transaction
    }
}

/// One reference-counted entry of the node-storage column.
#[derive(Debug)]
pub struct RcEntry {
    pub key: Vec<u8>,
    pub value: Vec<u8>,
    pub rc: u64,
}

/// The mathematical shape of a reference-counted entry.
pub struct RcEntryView {
    pub key: Seq<u8>,
    pub value: Seq<u8>,
    pub rc: u64,
}

impl View for RcEntry {
    type V = RcEntryView;

    open spec fn view(&self) -> RcEntryView {
        RcEntryView { key: self.key@, value: self.value@, rc: self.rc }
    }
}

/// One entry of a plain key-value column.
#[derive(Debug)]
pub struct KvEntry {
    pub key: Vec<u8>,
    pub value: Vec<u8>,
}

/// The mathematical shape of a plain entry.
pub struct KvEntryView {
    pub key: Seq<u8>,
    pub value: Seq<u8>,
}

impl View for KvEntry {
    type V = KvEntryView;

    open spec fn view(&self) -> KvEntryView {
        KvEntryView { key: self.key@, value: self.value@ }
    }
}

impl Clone for RcEntry {
    /// A clone carries the same key, value and count.
    fn clone(&self) -> (r: Self)
        ensures
            r@ == self@,
    {
        RcEntry {
            key: vstd::slice::slice_to_vec(self.key.as_slice()),
            value: vstd::slice::slice_to_vec(self.value.as_slice()),
            rc: self.rc,
        }
    }
}

impl Clone for KvEntry {
    /// A clone carries the same key and value.
    fn clone(&self) -> (r: Self)
        ensures
            r@ == self@,
    {
        KvEntry {
            key: vstd::slice::slice_to_vec(self.key.as_slice()),
            value: vstd::slice::slice_to_vec(self.value.as_slice()),
        }
    }
}

/// A batch operation this layer is allowed to emit: refcount adjustments only
/// against the node-storage column, plain writes and deletes only against the
/// other columns.
pub open spec fn spec_wf_op(op: DBOpView) -> bool {
    match op {
        DBOpView::Put { col, .. } => col != DBCol::State,
        DBOpView::Insert { col, .. } => col != DBCol::State,
        DBOpView::Delete { col, .. } => col != DBCol::State,
        DBOpView::DeleteAll { .. } => true,
        DBOpView::IncrementRefcount { col, rc, .. } => col == DBCol::State && rc >= 1,
        DBOpView::DecrementRefcount { col, rc, .. } => col == DBCol::State && rc >= 1,
    }
}

/// Every operation of the batch is well formed.
pub open spec fn spec_wf_transaction(ops: Seq<DBOpView>) -> bool {
    forall|i: int| 0 <= i < ops.len() ==> spec_wf_op(#[trigger] ops[i])
}

/// The value under `key` in a reference-counted column, with its count.
pub open spec fn spec_rc_find(s: Seq<RcEntryView>, key: Seq<u8>) -> Option<RcEntryView>
    decreases s.len(),
{
    if s.len() == 0 {
        None
    } else if s[0].key == key {
        Some(s[0])
    } else {
        spec_rc_find(s.drop_first(), key)
    }
}

/// The value under `key` in a plain column.
pub open spec fn spec_kv_find(s: Seq<KvEntryView>, key: Seq<u8>) -> Option<Seq<u8>>
    decreases s.len(),
{
    if s.len() == 0 {
        None
    } else if s[0].key == key {
        Some(s[0].value)
    } else {
        spec_kv_find(s.drop_first(), key)
    }
}

/// Raising a reference count: an existing entry keeps its bytes and gains
/// `rc` (saturating); a missing key gets a fresh entry carrying `value`.
pub open spec fn spec_rc_increment(
    s: Seq<RcEntryView>,
    key: Seq<u8>,
    value: Seq<u8>,
    rc: u32,
) -> Seq<RcEntryView>
    decreases s.len(),
{
    if s.len() == 0 {
        seq![RcEntryView { key, value, rc: rc as u64 }]
    } else if s[0].key == key {
        seq![
            RcEntryView { key: s[0].key, value: s[0].value, rc: spec_sat_add(s[0].rc, rc as u64) },
        ] + s.drop_first()
    } else {
        seq![s[0]] + spec_rc_increment(s.drop_first(), key, value, rc)
    }
}

/// `a + b`, stopping at the largest count.
pub open spec fn spec_sat_add(a: u64, b: u64) -> u64 {
    if a + b > u64::MAX {
        u64::MAX
    } else {
        (a + b) as u64
    }
}

/// Lowering a reference count: a count that would reach zero (or below)
/// removes the entry; a missing key is left alone.
pub open spec fn spec_rc_decrement(s: Seq<RcEntryView>, key: Seq<u8>, rc: u32) -> Seq<RcEntryView>
    decreases s.len(),
{
    if s.len() == 0 {
        s
    } else if s[0].key == key {
        if s[0].rc > rc as u64 {
            seq![RcEntryView { key: s[0].key, value: s[0].value, rc: (s[0].rc - rc as u64) as u64 }]
                + s.drop_first()
        } else {
            s.drop_first()
        }
    } else {
        seq![s[0]] + spec_rc_decrement(s.drop_first(), key, rc)
    }
}

/// A plain write: an existing key's value is replaced in place; a missing key
/// is appended at the end.
pub open spec fn spec_kv_set(s: Seq<KvEntryView>, key: Seq<u8>, value: Seq<u8>) -> Seq<KvEntryView>
    decreases s.len(),
{
    if s.len() == 0 {
        seq![KvEntryView { key, value }]
    } else if s[0].key == key {
        seq![KvEntryView { key, value }] + s.drop_first()
    } else {
        seq![s[0]] + spec_kv_set(s.drop_first(), key, value)
    }
}

/// A plain delete: every entry under `key` is dropped.
pub open spec fn spec_kv_delete(s: Seq<KvEntryView>, key: Seq<u8>) -> Seq<KvEntryView>
    decreases s.len(),
{
    if s.len() == 0 {
        s
    } else if s[0].key == key {
        spec_kv_delete(s.drop_first(), key)
    } else {
        seq![s[0]] + spec_kv_delete(s.drop_first(), key)
    }
}

/// The entries whose key starts with `prefix`, in stored order.
pub open spec fn spec_kv_with_prefix(s: Seq<KvEntryView>, prefix: Seq<u8>) -> Seq<KvEntryView>
    decreases s.len(),
{
    if s.len() == 0 {
        s
    } else if crate::bytes::is_prefix_of(prefix, s[0].key) {
        seq![s[0]] + spec_kv_with_prefix(s.drop_first(), prefix)
    } else {
        spec_kv_with_prefix(s.drop_first(), prefix)
    }
}

/// The mathematical shape of the whole store.
#[verifier::ext_equal]
pub struct StoreView {
    pub state: Seq<RcEntryView>,
    pub state_changes: Seq<KvEntryView>,
    pub trie_changes: Seq<KvEntryView>,
}

/// An in-memory model of the persistent key-value store: the three columns
/// this layer touches, each a list of entries.  Stands in for the engine that
/// owns atomic batch commits.
#[derive(Debug)]
pub struct Store {
    state: Vec<RcEntry>,
    state_changes: Vec<KvEntry>,
    trie_changes: Vec<KvEntry>,
}

impl View for Store {
    type V = StoreView;

    closed spec fn view(&self) -> StoreView {
        StoreView {
            state: rc_views(self.state@),
            state_changes: kv_views(self.state_changes@),
            trie_changes: kv_views(self.trie_changes@),
        }
    }
}

/// What one well-formed operation does to the store.
pub open spec fn spec_apply_op(s: StoreView, op: DBOpView) -> StoreView {
    match op {
        DBOpView::Put { col, key, value } => match col {
            DBCol::State => s,
            DBCol::StateChanges => StoreView {
                state_changes: spec_kv_set(s.state_changes, key, value),
                ..s
            },
            DBCol::TrieChanges => StoreView {
                trie_changes: spec_kv_set(s.trie_changes, key, value),
                ..s
            },
        },
        DBOpView::Insert { col, key, value } => match col {
            DBCol::State => s,
            DBCol::StateChanges => StoreView {
                state_changes: spec_kv_set(s.state_changes, key, value),
                ..s
            },
            DBCol::TrieChanges => StoreView {
                trie_changes: spec_kv_set(s.trie_changes, key, value),
                ..s
            },
        },
        DBOpView::Delete { col, key } => match col {
            DBCol::State => s,
            DBCol::StateChanges => StoreView {
                state_changes: spec_kv_delete(s.state_changes, key),
                ..s
            },
            DBCol::TrieChanges => StoreView {
                trie_changes: spec_kv_delete(s.trie_changes, key),
                ..s
            },
        },
        DBOpView::DeleteAll { col } => match col {
            DBCol::State => StoreView { state: Seq::empty(), ..s },
            DBCol::StateChanges => StoreView { state_changes: Seq::empty(), ..s },
            DBCol::TrieChanges => StoreView { trie_changes: Seq::empty(), ..s },
        },
        DBOpView::IncrementRefcount { col, key, value, rc } => match col {
            DBCol::State => StoreView { state: spec_rc_increment(s.state, key, value, rc), ..s },
            _ => s,
        },
        DBOpView::DecrementRefcount { col, key, rc } => match col {
            DBCol::State => StoreView { state: spec_rc_decrement(s.state, key, rc), ..s },
            _ => s,
        },
    }
}

/// What a whole batch does to the store: the operations in program order.
pub open spec fn spec_apply_ops(s: StoreView, ops: Seq<DBOpView>) -> StoreView
    decreases ops.len(),
{
    if ops.len() == 0 {
        s
    } else {
        spec_apply_op(spec_apply_ops(s, ops.drop_last()), ops.last())
    }
}

/// The views of a list of reference-counted entries.
pub open spec fn rc_views(s: Seq<RcEntry>) -> Seq<RcEntryView> {
    s.map_values(|e: RcEntry| e@)
}

/// The views of a list of plain entries.
pub open spec fn kv_views(s: Seq<KvEntry>) -> Seq<KvEntryView> {
    s.map_values(|e: KvEntry| e@)
}

/// Unfolds [`rc_views`] pointwise.
pub proof fn lemma_rc_views(s: Seq<RcEntry>)
    ensures
        rc_views(s).len() == s.len(),
        forall|i: int| 0 <= i < s.len() ==> #[trigger] rc_views(s)[i] == s[i]@,
{
}

/// Unfolds [`kv_views`] pointwise.
pub proof fn lemma_kv_views(s: Seq<KvEntry>)
    ensures
        kv_views(s).len() == s.len(),
        forall|i: int| 0 <= i < s.len() ==> #[trigger] kv_views(s)[i] == s[i]@,
{
}

/// A copy of a list of reference-counted entries.
fn rc_clone_vec(s: &[RcEntry]) -> (r: Vec<RcEntry>)
    ensures
        rc_views(r@) == rc_views(s@),
{
    let mut r: Vec<RcEntry> = Vec::new();
    let mut i: usize = 0;
    while i < s.len()
        invariant
            i <= s@.len(),
            rc_views(r@) == rc_views(s@.subrange(0, i as int)),
        decreases s@.len() - i,
    {
        let e = vstd::slice::slice_index_get(s, i).clone();
        let ghost r_before = r@;
        r.push(e);
        proof {
            assert(e@ == s@[i as int]@);
            lemma_rc_views(r_before);
            lemma_rc_views(r@);
            lemma_rc_views(s@.subrange(0, i as int));
            lemma_rc_views(s@.subrange(0, i + 1));
            assert(r@.len() == i + 1);
            assert(rc_views(r@).len() == rc_views(s@.subrange(0, i + 1)).len());
            assert(rc_views(r@)[i as int] == rc_views(s@.subrange(0, i + 1))[i as int]);
            assert forall|j: int| 0 <= j < i implies rc_views(r@)[j] == rc_views(
                s@.subrange(0, i + 1),
            )[j] by {
                assert(r@[j] == r_before[j]);
                assert(rc_views(r_before)[j] == rc_views(s@.subrange(0, i as int))[j]);
                assert(rc_views(r@)[j] == r@[j]@);
                assert(s@.subrange(0, i as int)[j] == s@[j]);
                assert(s@.subrange(0, i + 1)[j] == s@[j]);
            }
            assert(rc_views(r@) =~= rc_views(s@.subrange(0, i + 1)));
        }
        i += 1;
    }
    proof {
        assert(s@.subrange(0, s@.len() as int) =~= s@);
    }
    r
}

/// A copy of a list of plain entries.
fn kv_clone_vec(s: &[KvEntry]) -> (r: Vec<KvEntry>)
    ensures
        kv_views(r@) == kv_views(s@),
{
    let mut r: Vec<KvEntry> = Vec::new();
    let mut i: usize = 0;
    while i < s.len()
        invariant
            i <= s@.len(),
            kv_views(r@) == kv_views(s@.subrange(0, i as int)),
        decreases s@.len() - i,
    {
        let e = vstd::slice::slice_index_get(s, i).clone();
        let ghost r_before = r@;
        r.push(e);
        proof {
            assert(e@ == s@[i as int]@);
            lemma_kv_views(r_before);
            lemma_kv_views(r@);
            lemma_kv_views(s@.subrange(0, i as int));
            lemma_kv_views(s@.subrange(0, i + 1));
            assert(r@.len() == i + 1);
            assert(kv_views(r@)[i as int] == kv_views(s@.subrange(0, i + 1))[i as int]);
            assert forall|j: int| 0 <= j < i implies kv_views(r@)[j] == kv_views(
                s@.subrange(0, i + 1),
            )[j] by {
                assert(r@[j] == r_before[j]);
                assert(kv_views(r_before)[j] == kv_views(s@.subrange(0, i as int))[j]);
                assert(kv_views(r@)[j] == r@[j]@);
                assert(s@.subrange(0, i as int)[j] == s@[j]);
                assert(s@.subrange(0, i + 1)[j] == s@[j]);
            }
            assert(kv_views(r@) =~= kv_views(s@.subrange(0, i + 1)));
        }
        i += 1;
    }
    proof {
        assert(s@.subrange(0, s@.len() as int) =~= s@);
    }
    r
}

/// Raising a count, over entry vectors.
fn rc_increment_entries(s: &[RcEntry], key: &[u8], value: &[u8], rc: u32) -> (r: Vec<RcEntry>)
    ensures
        rc_views(r@) == spec_rc_increment(rc_views(s@), key@, value@, rc),
    decreases s@.len(),
{
    let ghost sv = rc_views(s@);
    if s.len() == 0 {
        let entry = RcEntry {
            key: vstd::slice::slice_to_vec(key),
            value: vstd::slice::slice_to_vec(value),
            rc: rc as u64,
        };
        let mut r: Vec<RcEntry> = Vec::new();
        r.push(entry);
        proof {
            assert(rc_views(r@) =~= spec_rc_increment(sv, key@, value@, rc));
        }
        r
    } else {
        let head = vstd::slice::slice_index_get(s, 0);
        let rest = vstd::slice::slice_subrange(s, 1, s.len());
        proof {
            assert(rc_views(rest@) =~= sv.drop_first());
        }
        if crate::bytes::bytes_equal(head.key.as_slice(), key) {
            let mut updated = head.clone();
            updated.rc = if head.rc > u64::MAX - rc as u64 {
                u64::MAX
            } else {
                head.rc + rc as u64
            };
            let mut r = rc_clone_vec(rest);
            r.insert(0, updated);
            proof {
                assert(rc_views(r@) =~= spec_rc_increment(sv, key@, value@, rc));
            }
            r
        } else {
            let mut r = rc_increment_entries(rest, key, value, rc);
            r.insert(0, head.clone());
            proof {
                assert(rc_views(r@) =~= spec_rc_increment(sv, key@, value@, rc));
            }
            r
        }
    }
}

/// Lowering a count, over entry vectors.
fn rc_decrement_entries(s: &[RcEntry], key: &[u8], rc: u32) -> (r: Vec<RcEntry>)
    ensures
        rc_views(r@) == spec_rc_decrement(rc_views(s@), key@, rc),
    decreases s@.len(),
{
    let ghost sv = rc_views(s@);
    if s.len() == 0 {
        let r: Vec<RcEntry> = Vec::new();
        proof {
            assert(rc_views(r@) =~= spec_rc_decrement(sv, key@, rc));
        }
        r
    } else {
        let head = vstd::slice::slice_index_get(s, 0);
        let rest = vstd::slice::slice_subrange(s, 1, s.len());
        proof {
            assert(rc_views(rest@) =~= sv.drop_first());
        }
        if crate::bytes::bytes_equal(head.key.as_slice(), key) {
            let mut r = rc_clone_vec(rest);
            if head.rc > rc as u64 {
                let mut updated = head.clone();
                updated.rc = head.rc - rc as u64;
                r.insert(0, updated);
            }
            proof {
                assert(rc_views(r@) =~= spec_rc_decrement(sv, key@, rc));
            }
            r
        } else {
            let mut r = rc_decrement_entries(rest, key, rc);
            r.insert(0, head.clone());
            proof {
                assert(rc_views(r@) =~= spec_rc_decrement(sv, key@, rc));
            }
            r
        }
    }
}

/// A plain write, over entry vectors.
fn kv_set_entries(s: &[KvEntry], key: &[u8], value: &[u8]) -> (r: Vec<KvEntry>)
    ensures
        kv_views(r@) == spec_kv_set(kv_views(s@), key@, value@),
    decreases s@.len(),
{
    let ghost sv = kv_views(s@);
    let entry = KvEntry {
        key: vstd::slice::slice_to_vec(key),
        value: vstd::slice::slice_to_vec(value),
    };
    if s.len() == 0 {
        let mut r: Vec<KvEntry> = Vec::new();
        r.push(entry);
        proof {
            assert(kv_views(r@) =~= spec_kv_set(sv, key@, value@));
        }
        r
    } else {
        let head = vstd::slice::slice_index_get(s, 0);
        let rest = vstd::slice::slice_subrange(s, 1, s.len());
        proof {
            assert(kv_views(rest@) =~= sv.drop_first());
        }
        if crate::bytes::bytes_equal(head.key.as_slice(), key) {
            let mut r = kv_clone_vec(rest);
            r.insert(0, entry);
            proof {
                assert(kv_views(r@) =~= spec_kv_set(sv, key@, value@));
            }
            r
        } else {
            let mut r = kv_set_entries(rest, key, value);
            r.insert(0, head.clone());
            proof {
                assert(kv_views(r@) =~= spec_kv_set(sv, key@, value@));
            }
            r
        }
    }
}

/// A plain delete, over entry vectors.
fn kv_delete_entries(s: &[KvEntry], key: &[u8]) -> (r: Vec<KvEntry>)
    ensures
        kv_views(r@) == spec_kv_delete(kv_views(s@), key@),
    decreases s@.len(),
{
    let ghost sv = kv_views(s@);
    if s.len() == 0 {
        let r: Vec<KvEntry> = Vec::new();
        proof {
            assert(kv_views(r@) =~= spec_kv_delete(sv, key@));
        }
        r
    } else {
        let head = vstd::slice::slice_index_get(s, 0);
        let rest = vstd::slice::slice_subrange(s, 1, s.len());
        proof {
            assert(kv_views(rest@) =~= sv.drop_first());
        }
        let mut r = kv_delete_entries(rest, key);
        if !crate::bytes::bytes_equal(head.key.as_slice(), key) {
            r.insert(0, head.clone());
        }
        proof {
            assert(kv_views(r@) =~= spec_kv_delete(sv, key@));
        }
        r
    }
}

/// The entries with a given key prefix, over entry vectors.
fn kv_with_prefix_entries(s: &[KvEntry], prefix: &[u8]) -> (r: Vec<KvEntry>)
    ensures
        kv_views(r@) == spec_kv_with_prefix(kv_views(s@), prefix@),
    decreases s@.len(),
{
    let ghost sv = kv_views(s@);
    if s.len() == 0 {
        let r: Vec<KvEntry> = Vec::new();
        proof {
            assert(kv_views(r@) =~= spec_kv_with_prefix(sv, prefix@));
        }
        r
    } else {
        let head = vstd::slice::slice_index_get(s, 0);
        let rest = vstd::slice::slice_subrange(s, 1, s.len());
        proof {
            assert(kv_views(rest@) =~= sv.drop_first());
        }
        let mut r = kv_with_prefix_entries(rest, prefix);
        if crate::bytes::starts_with(head.key.as_slice(), prefix) {
            r.insert(0, head.clone());
        }
        proof {
            assert(kv_views(r@) =~= spec_kv_with_prefix(sv, prefix@));
        }
        r
    }
}

/// Looking a key up in a plain column, over entry vectors.
fn kv_find_entries(s: &[KvEntry], key: &[u8]) -> (r: Option<Vec<u8>>)
    ensures
        match r {
            Some(v) => spec_kv_find(kv_views(s@), key@) == Some(v@),
            None => spec_kv_find(kv_views(s@), key@) is None,
        },
    decreases s@.len(),
{
    let ghost sv = kv_views(s@);
    if s.len() == 0 {
        None
    } else {
        let head = vstd::slice::slice_index_get(s, 0);
        let rest = vstd::slice::slice_subrange(s, 1, s.len());
        proof {
            assert(kv_views(rest@) =~= sv.drop_first());
        }
        if crate::bytes::bytes_equal(head.key.as_slice(), key) {
            Some(vstd::slice::slice_to_vec(head.value.as_slice()))
        } else {
            kv_find_entries(rest, key)
        }
    }
}

/// Looking a key up in the reference-counted column, over entry vectors.
fn rc_find_entries(s: &[RcEntry], key: &[u8]) -> (r: Option<(Vec<u8>, u64)>)
    ensures
        match r {
            Some((v, rc)) => spec_rc_find(rc_views(s@), key@) matches Some(e) && e.value == v@
                && e.rc == rc,
            None => spec_rc_find(rc_views(s@), key@) is None,
        },
    decreases s@.len(),
{
    let ghost sv = rc_views(s@);
    if s.len() == 0 {
        None
    } else {
        let head = vstd::slice::slice_index_get(s, 0);
        let rest = vstd::slice::slice_subrange(s, 1, s.len());
        proof {
            assert(rc_views(rest@) =~= sv.drop_first());
        }
        if crate::bytes::bytes_equal(head.key.as_slice(), key) {
            Some((vstd::slice::slice_to_vec(head.value.as_slice()), head.rc))
        } else {
            rc_find_entries(rest, key)
        }
    }
}

impl Store {
    /// A store with all three columns empty.
    pub fn new() -> (r: Store)
        ensures
            r@.state =~= Seq::<RcEntryView>::empty(),
            r@.state_changes =~= Seq::<KvEntryView>::empty(),
            r@.trie_changes =~= Seq::<KvEntryView>::empty(),
    {
        Store { state: Vec::new(), state_changes: Vec::new(), trie_changes: Vec::new() }
    }

    /// Applies one well-formed operation.
    fn apply_op(&mut self, op: &DBOp)
        requires
            spec_wf_op(op@),
        ensures
            final(self)@ == spec_apply_op(old(self)@, op@),
    {
        match op {
            DBOp::Put { col, key, value } => {
                match col {
                    DBCol::State => {},
                    DBCol::StateChanges => {
                        let updated = kv_set_entries(
                            self.state_changes.as_slice(),
                            key.as_slice(),
                            value.as_slice(),
                        );
                        self.state_changes = updated;
                    },
                    DBCol::TrieChanges => {
                        let updated = kv_set_entries(
                            self.trie_changes.as_slice(),
                            key.as_slice(),
                            value.as_slice(),
                        );
                        self.trie_changes = updated;
                    },
                }
            },
            DBOp::Insert { col, key, value } => {
                match col {
                    DBCol::State => {},
                    DBCol::StateChanges => {
                        let updated = kv_set_entries(
                            self.state_changes.as_slice(),
                            key.as_slice(),
                            value.as_slice(),
                        );
                        self.state_changes = updated;
                    },
                    DBCol::TrieChanges => {
                        let updated = kv_set_entries(
                            self.trie_changes.as_slice(),
                            key.as_slice(),
                            value.as_slice(),
                        );
                        self.trie_changes = updated;
                    },
                }
            },
            DBOp::Delete { col, key } => {
                match col {
                    DBCol::State => {},
                    DBCol::StateChanges => {
                        let updated = kv_delete_entries(
                            self.state_changes.as_slice(),
                            key.as_slice(),
                        );
                        self.state_changes = updated;
                    },
                    DBCol::TrieChanges => {
                        let updated = kv_delete_entries(
                            self.trie_changes.as_slice(),
                            key.as_slice(),
                        );
                        self.trie_changes = updated;
                    },
                }
            },
            DBOp::DeleteAll { col } => {
                match col {
                    DBCol::State => {
                        self.state = Vec::new();
                    },
                    DBCol::StateChanges => {
                        self.state_changes = Vec::new();
                    },
                    DBCol::TrieChanges => {
                        self.trie_changes = Vec::new();
                    },
                }
            },
            DBOp::IncrementRefcount { col: _, key, value, rc } => {
                let updated = rc_increment_entries(
                    self.state.as_slice(),
                    key.as_slice(),
                    value.as_slice(),
                    *rc,
                );
                self.state = updated;
            },
            DBOp::DecrementRefcount { col: _, key, rc } => {
                let updated = rc_decrement_entries(self.state.as_slice(), key.as_slice(), *rc);
                self.state = updated;
            },
        }
        proof {
            assert(self@ =~= spec_apply_op(old(self)@, op@));
        }
    }

    /// Commits a whole batch atomically: afterwards the store is the batch's
    /// operations applied in program order.
    pub fn commit(&mut self, transaction: DBTransaction)
        requires
            spec_wf_transaction(transaction@),
        ensures
            final(self)@ == spec_apply_ops(old(self)@, transaction@),
    {
        let mut i: usize = 0;
        let n = transaction.ops.len();
        while i < n
            invariant
                n == transaction.ops@.len(),
                i <= n,
                spec_wf_transaction(transaction@),
                self@ == spec_apply_ops(old(self)@, transaction@.subrange(0, i as int)),
            decreases n - i,
        {
            proof {
                assert(transaction@.subrange(0, i + 1 as int).drop_last() =~= transaction@
                    .subrange(0, i as int));
                assert(transaction@.subrange(0, i + 1 as int).last() == transaction@[i as int]);
                assert(transaction@[i as int] == transaction.ops@[i as int]@);
            }
            self.apply_op(&transaction.ops[i]);
            i += 1;
        }
        proof {
            assert(transaction@.subrange(0, transaction@.len() as int) =~= transaction@);
        }
    }

    /// The value stored under `key` in `col`; for the node-storage column the
    /// content bytes without their count.
    pub fn get(&self, col: DBCol, key: &[u8]) -> (r: Option<Vec<u8>>)
        ensures
            match col {
                DBCol::State => match r {
                    Some(v) => spec_rc_find(self@.state, key@) matches Some(e) && e.value == v@,
                    None => spec_rc_find(self@.state, key@) is None,
                },
                DBCol::StateChanges => match r {
                    Some(v) => spec_kv_find(self@.state_changes, key@) == Some(v@),
                    None => spec_kv_find(self@.state_changes, key@) is None,
                },
                DBCol::TrieChanges => match r {
                    Some(v) => spec_kv_find(self@.trie_changes, key@) == Some(v@),
                    None => spec_kv_find(self@.trie_changes, key@) is None,
                },
            },
    {
        match col {
            DBCol::State => match rc_find_entries(self.state.as_slice(), key) {
                Some((v, _)) => Some(v),
                None => None,
            },
            DBCol::StateChanges => kv_find_entries(self.state_changes.as_slice(), key),
            DBCol::TrieChanges => kv_find_entries(self.trie_changes.as_slice(), key),
        }
    }

    /// The reference count stored under `key`, zero when the key is absent.
    pub fn get_state_rc(&self, key: &[u8]) -> (r: u64)
        ensures
            r == match spec_rc_find(self@.state, key@) {
                Some(e) => e.rc,
                None => 0u64,
            },
    {
        match rc_find_entries(self.state.as_slice(), key) {
            Some((_, rc)) => rc,
            None => 0,
        }
    }

    /// The change-log entries whose key starts with `prefix`, in stored
    /// order.
    pub fn iter_prefix(&self, col: DBCol, prefix: &[u8]) -> (r: Vec<KvEntry>)
        requires
            col != DBCol::State,
        ensures
            col == DBCol::StateChanges ==> kv_views(r@) == spec_kv_with_prefix(
                self@.state_changes,
                prefix@,
            ),
            col == DBCol::TrieChanges ==> kv_views(r@) == spec_kv_with_prefix(
                self@.trie_changes,
                prefix@,
            ),
    {
        match col {
            DBCol::State => Vec::new(),
            DBCol::StateChanges => kv_with_prefix_entries(self.state_changes.as_slice(), prefix),
            DBCol::TrieChanges => kv_with_prefix_entries(self.trie_changes.as_slice(), prefix),
        }
    }
}

} // verus!
