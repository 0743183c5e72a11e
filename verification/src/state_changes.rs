//! Account-level state-change records and their durable encoding.
//!
//! The change log stores one encoded record per (block, trie key); the
//! encoding is length-prefixed throughout, and decoding is proved to invert
//! it, so a point query gets back exactly the record that was flushed.

use vstd::prelude::*;
use vstd::bytes::{
    lemma_auto_spec_u64_to_from_le_bytes, spec_u64_from_le_bytes, spec_u64_to_le_bytes,
    u64_from_le_bytes, u64_to_le_bytes,
};
use vstd::slice::{slice_subrange, slice_to_vec};
use crate::bytes::{extend_bytes, spec_opt_bytes_view};
use crate::errors::StoreError;
use crate::trie_key::{TrieKey, TrieKeyView};

verus! {

/// Why a state change happened.  Only the kind is carried here: it decides
/// whether a change may reach the durable log at all.
#[derive(Clone, Copy, Debug, PartialEq, Eq, Structural)]
pub enum StateChangeCause {
    /// Must never be finalized to disk.
    NotWritableToDisk,
    InitialState,
    TransactionProcessing,
    ActionReceiptProcessingStarted,
    ActionReceiptGasReward,
    ReceiptProcessing,
    PostponedReceipt,
    UpdatedDelayedReceipts,
    ValidatorAccountsUpdate,
    Migration,
    /// A resharding artifact; must never be finalized to disk.
    Resharding,
}

/// One change of a value under a trie key.
#[derive(Debug)]
pub struct RawStateChange {
    pub cause: StateChangeCause,
    pub data: Option<Vec<u8>>,
}

/// The mathematical shape of one change.
pub struct RawStateChangeView {
    pub cause: StateChangeCause,
    pub data: Option<Seq<u8>>,
}

impl View for RawStateChange {
    type V = RawStateChangeView;

    open spec fn view(&self) -> RawStateChangeView {
        RawStateChangeView { cause: self.cause, data: spec_opt_bytes_view(self.data) }
    }
}

/// The changes one trie key saw in one block.
#[derive(Debug)]
pub struct RawStateChangesWithTrieKey {
    pub trie_key: TrieKey,
    pub changes: Vec<RawStateChange>,
}

/// The mathematical shape of a record.
pub struct RawStateChangesView {
    pub trie_key: TrieKeyView,
    pub changes: Seq<RawStateChangeView>,
}

/// The views of a list of changes.
pub open spec fn change_views(s: Seq<RawStateChange>) -> Seq<RawStateChangeView> {
    s.map_values(|c: RawStateChange| c@)
}

impl View for RawStateChangesWithTrieKey {
    type V = RawStateChangesView;

    open spec fn view(&self) -> RawStateChangesView {
        RawStateChangesView { trie_key: self.trie_key@, changes: change_views(self.changes@) }
    }
}

/// The views of a list of records.
pub open spec fn record_views(s: Seq<RawStateChangesWithTrieKey>) -> Seq<RawStateChangesView> {
    s.map_values(|r: RawStateChangesWithTrieKey| r@)
}

/// Unfolds [`record_views`] pointwise.
pub proof fn lemma_record_views(s: Seq<RawStateChangesWithTrieKey>)
    ensures
        record_views(s).len() == s.len(),
        forall|i: int| 0 <= i < s.len() ==> #[trigger] record_views(s)[i] == s[i]@,
{
}

/// Unfolds [`change_views`] pointwise.
pub proof fn lemma_change_views(s: Seq<RawStateChange>)
    ensures
        change_views(s).len() == s.len(),
        forall|i: int| 0 <= i < s.len() ==> #[trigger] change_views(s)[i] == s[i]@,
{
}

/// The tag byte of a cause.
pub open spec fn spec_cause_tag(c: StateChangeCause) -> u8 {
    match c {
        StateChangeCause::NotWritableToDisk => 0u8,
        StateChangeCause::InitialState => 1u8,
        StateChangeCause::TransactionProcessing => 2u8,
        StateChangeCause::ActionReceiptProcessingStarted => 3u8,
        StateChangeCause::ActionReceiptGasReward => 4u8,
        StateChangeCause::ReceiptProcessing => 5u8,
        StateChangeCause::PostponedReceipt => 6u8,
        StateChangeCause::UpdatedDelayedReceipts => 7u8,
        StateChangeCause::ValidatorAccountsUpdate => 8u8,
        StateChangeCause::Migration => 9u8,
        StateChangeCause::Resharding => 10u8,
    }
}

/// The cause a tag byte decodes to.
pub open spec fn spec_cause_of_tag(t: u8) -> Option<StateChangeCause> {
    if t == 0 {
        Some(StateChangeCause::NotWritableToDisk)
    } else if t == 1 {
        Some(StateChangeCause::InitialState)
    } else if t == 2 {
        Some(StateChangeCause::TransactionProcessing)
    } else if t == 3 {
        Some(StateChangeCause::ActionReceiptProcessingStarted)
    } else if t == 4 {
        Some(StateChangeCause::ActionReceiptGasReward)
    } else if t == 5 {
        Some(StateChangeCause::ReceiptProcessing)
    } else if t == 6 {
        Some(StateChangeCause::PostponedReceipt)
    } else if t == 7 {
        Some(StateChangeCause::UpdatedDelayedReceipts)
    } else if t == 8 {
        Some(StateChangeCause::ValidatorAccountsUpdate)
    } else if t == 9 {
        Some(StateChangeCause::Migration)
    } else if t == 10 {
        Some(StateChangeCause::Resharding)
    } else {
        None
    }
}

/// Decoding a cause tag inverts encoding it.
pub proof fn lemma_cause_tag_round_trip(c: StateChangeCause)
    ensures
        spec_cause_of_tag(spec_cause_tag(c)) == Some(c),
{
}

/// A length-prefixed byte string: eight little-endian length bytes, then the
/// bytes themselves.
pub open spec fn spec_enc_bytes(b: Seq<u8>) -> Seq<u8> {
    spec_u64_to_le_bytes(b.len() as u64) + b
}

/// Optional bytes: a presence byte, then the string when present.
pub open spec fn spec_enc_opt_bytes(o: Option<Seq<u8>>) -> Seq<u8> {
    match o {
        None => seq![0u8],
        Some(b) => seq![1u8] + spec_enc_bytes(b),
    }
}

/// One change: the cause tag, then the optional data.
pub open spec fn spec_enc_change(c: RawStateChangeView) -> Seq<u8> {
    seq![spec_cause_tag(c.cause)] + spec_enc_opt_bytes(c.data)
}

/// A change list without its count prefix.
pub open spec fn spec_enc_change_list(s: Seq<RawStateChangeView>) -> Seq<u8>
    decreases s.len(),
{
    if s.len() == 0 {
        Seq::empty()
    } else {
        spec_enc_change(s[0]) + spec_enc_change_list(s.drop_first())
    }
}

/// The structural encoding of a trie key inside a record: a kind tag, then
/// the key's fields, each length-prefixed.
pub open spec fn spec_enc_trie_key(k: TrieKeyView) -> Seq<u8> {
    match k {
        TrieKeyView::Account { account_id } => seq![0u8] + spec_enc_bytes(account_id),
        TrieKeyView::ContractCode { account_id } => seq![1u8] + spec_enc_bytes(account_id),
        TrieKeyView::AccessKey { account_id, public_key } => seq![2u8] + spec_enc_bytes(
            account_id,
        ) + spec_enc_bytes(public_key),
        TrieKeyView::ContractData { account_id, key } => seq![3u8] + spec_enc_bytes(account_id)
            + spec_enc_bytes(key),
        TrieKeyView::DelayedReceiptIndices => seq![4u8],
        TrieKeyView::DelayedReceipt { index } => seq![5u8] + spec_u64_to_le_bytes(index),
    }
}

/// A whole record: the trie key, the change count, then the changes.
pub open spec fn spec_enc_record(r: RawStateChangesView) -> Seq<u8> {
    spec_enc_trie_key(r.trie_key) + spec_u64_to_le_bytes(r.changes.len() as u64)
        + spec_enc_change_list(r.changes)
}

/// The sizes a record must keep for its length prefixes to be faithful;
/// every record built from in-memory vectors satisfies it.
pub open spec fn spec_record_wf(r: RawStateChangesView) -> bool {
    &&& spec_trie_key_fields_wf(r.trie_key)
    &&& r.changes.len() <= u64::MAX
    &&& forall|i: int|
        0 <= i < r.changes.len() ==> match (#[trigger] r.changes[i]).data {
            Some(b) => b.len() <= u64::MAX,
            None => true,
        }
}

/// Field lengths of a trie key fit their prefixes.
pub open spec fn spec_trie_key_fields_wf(k: TrieKeyView) -> bool {
    match k {
        TrieKeyView::Account { account_id } => account_id.len() <= u64::MAX,
        TrieKeyView::ContractCode { account_id } => account_id.len() <= u64::MAX,
        TrieKeyView::AccessKey { account_id, public_key } => account_id.len() <= u64::MAX
            && public_key.len() <= u64::MAX,
        TrieKeyView::ContractData { account_id, key } => account_id.len() <= u64::MAX && key.len()
            <= u64::MAX,
        TrieKeyView::DelayedReceiptIndices => true,
        TrieKeyView::DelayedReceipt { .. } => true,
    }
}

// ---------------------------------------------------------------------------
// Spec-level decoding: a cursor over the byte string.
// ---------------------------------------------------------------------------

/// Eight bytes as a little-endian count, advancing the cursor.
pub open spec fn spec_dec_u64(s: Seq<u8>, pos: int) -> Option<(u64, int)> {
    if 0 <= pos && pos + 8 <= s.len() {
        Some((spec_u64_from_le_bytes(s.subrange(pos, pos + 8)), pos + 8))
    } else {
        None
    }
}

/// A length-prefixed byte string.
pub open spec fn spec_dec_bytes(s: Seq<u8>, pos: int) -> Option<(Seq<u8>, int)> {
    match spec_dec_u64(s, pos) {
        None => None,
        Some((n, p)) => if p + n <= s.len() {
            Some((s.subrange(p, p + n as int), p + n as int))
        } else {
            None
        },
    }
}

/// A presence byte, then the string when present.
pub open spec fn spec_dec_opt_bytes(s: Seq<u8>, pos: int) -> Option<(Option<Seq<u8>>, int)> {
    if 0 <= pos && pos < s.len() {
        if s[pos] == 0 {
            Some((None, pos + 1))
        } else if s[pos] == 1 {
            match spec_dec_bytes(s, pos + 1) {
                None => None,
                Some((b, p)) => Some((Some(b), p)),
            }
        } else {
            None
        }
    } else {
        None
    }
}

/// A cause tag.
pub open spec fn spec_dec_cause(s: Seq<u8>, pos: int) -> Option<(StateChangeCause, int)> {
    if 0 <= pos && pos < s.len() {
        match spec_cause_of_tag(s[pos]) {
            None => None,
            Some(c) => Some((c, pos + 1)),
        }
    } else {
        None
    }
}

/// One change.
pub open spec fn spec_dec_change(s: Seq<u8>, pos: int) -> Option<(RawStateChangeView, int)> {
    match spec_dec_cause(s, pos) {
        None => None,
        Some((cause, p)) => match spec_dec_opt_bytes(s, p) {
            None => None,
            Some((data, q)) => Some((RawStateChangeView { cause, data }, q)),
        },
    }
}

/// Exactly `n` changes.
pub open spec fn spec_dec_change_list(s: Seq<u8>, pos: int, n: nat) -> Option<
    (Seq<RawStateChangeView>, int),
>
    decreases n,
{
    if n == 0 {
        Some((Seq::empty(), pos))
    } else {
        match spec_dec_change(s, pos) {
            None => None,
            Some((c, p)) => match spec_dec_change_list(s, p, (n - 1) as nat) {
                None => None,
                Some((rest, q)) => Some((seq![c] + rest, q)),
            },
        }
    }
}

/// A trie key.
pub open spec fn spec_dec_trie_key(s: Seq<u8>, pos: int) -> Option<(TrieKeyView, int)> {
    if 0 <= pos && pos < s.len() {
        let tag = s[pos];
        if tag == 0 {
            match spec_dec_bytes(s, pos + 1) {
                None => None,
                Some((account_id, p)) => Some((TrieKeyView::Account { account_id }, p)),
            }
        } else if tag == 1 {
            match spec_dec_bytes(s, pos + 1) {
                None => None,
                Some((account_id, p)) => Some((TrieKeyView::ContractCode { account_id }, p)),
            }
        } else if tag == 2 {
            match spec_dec_bytes(s, pos + 1) {
                None => None,
                Some((account_id, p)) => match spec_dec_bytes(s, p) {
                    None => None,
                    Some((public_key, q)) => Some(
                        (TrieKeyView::AccessKey { account_id, public_key }, q),
                    ),
                },
            }
        } else if tag == 3 {
            match spec_dec_bytes(s, pos + 1) {
                None => None,
                Some((account_id, p)) => match spec_dec_bytes(s, p) {
                    None => None,
                    Some((key, q)) => Some((TrieKeyView::ContractData { account_id, key }, q)),
                },
            }
        } else if tag == 4 {
            Some((TrieKeyView::DelayedReceiptIndices, pos + 1))
        } else if tag == 5 {
            match spec_dec_u64(s, pos + 1) {
                None => None,
                Some((index, p)) => Some((TrieKeyView::DelayedReceipt { index }, p)),
            }
        } else {
            None
        }
    } else {
        None
    }
}

/// A whole record; the bytes must be consumed exactly.
pub open spec fn spec_dec_record(s: Seq<u8>) -> Option<RawStateChangesView> {
    match spec_dec_trie_key(s, 0) {
        None => None,
        Some((trie_key, p)) => match spec_dec_u64(s, p) {
            None => None,
            Some((n, q)) => match spec_dec_change_list(s, q, n as nat) {
                None => None,
                Some((changes, end)) => if end == s.len() {
                    Some(RawStateChangesView { trie_key, changes })
                } else {
                    None
                },
            },
        },
    }
}

// ---------------------------------------------------------------------------
// Decoding inverts encoding.
// ---------------------------------------------------------------------------

/// A subrange of a subrange is a subrange of the original.
pub proof fn lemma_subrange_of_subrange(s: Seq<u8>, off: int, len: int, a: int, b: int)
    requires
        0 <= off,
        off + len <= s.len(),
        0 <= a <= b <= len,
    ensures
        s.subrange(off, off + len).subrange(a, b) =~= s.subrange(off + a, off + b),
{
}

/// Reading a count where one was written.
pub proof fn lemma_dec_u64_at(s: Seq<u8>, pos: int, x: u64)
    requires
        0 <= pos,
        pos + 8 <= s.len(),
        s.subrange(pos, pos + 8) == spec_u64_to_le_bytes(x),
    ensures
        spec_dec_u64(s, pos) == Some((x, pos + 8)),
{
    lemma_auto_spec_u64_to_from_le_bytes();
}

/// Reading a byte string where one was written.
pub proof fn lemma_dec_bytes_at(s: Seq<u8>, pos: int, b: Seq<u8>)
    requires
        0 <= pos,
        b.len() <= u64::MAX,
        pos + 8 + b.len() <= s.len(),
        s.subrange(pos, pos + 8 + b.len()) == spec_enc_bytes(b),
    ensures
        spec_dec_bytes(s, pos) == Some((b, pos + 8 + b.len())),
{
    lemma_auto_spec_u64_to_from_le_bytes();
    let e = spec_enc_bytes(b);
    let elen = 8 + b.len() as int;
    assert(s.subrange(pos, pos + 8) =~= spec_u64_to_le_bytes(b.len() as u64)) by {
        lemma_subrange_of_subrange(s, pos, elen, 0, 8);
        assert(e.subrange(0, 8) =~= spec_u64_to_le_bytes(b.len() as u64));
    }
    lemma_dec_u64_at(s, pos, b.len() as u64);
    assert(s.subrange(pos + 8, pos + 8 + b.len()) =~= b) by {
        lemma_subrange_of_subrange(s, pos, elen, 8, elen);
        assert(e.subrange(8, elen) =~= b);
    }
}

/// Reading optional bytes where some were written.
pub proof fn lemma_dec_opt_bytes_at(s: Seq<u8>, pos: int, o: Option<Seq<u8>>)
    requires
        0 <= pos,
        (o matches Some(b) ==> b.len() <= u64::MAX),
        pos + spec_enc_opt_bytes(o).len() <= s.len(),
        s.subrange(pos, pos + spec_enc_opt_bytes(o).len()) == spec_enc_opt_bytes(o),
    ensures
        spec_dec_opt_bytes(s, pos) == Some((o, pos + spec_enc_opt_bytes(o).len())),
{
    lemma_auto_spec_u64_to_from_le_bytes();
    let e = spec_enc_opt_bytes(o);
    assert(s[pos] == e[0]) by {
        assert(s.subrange(pos, pos + e.len())[0] == s[pos]);
    }
    match o {
        None => {
            assert(e =~= seq![0u8]);
        },
        Some(b) => {
            let eb = spec_enc_bytes(b);
            assert(e[0] == 1u8);
            assert(s.subrange(pos + 1, pos + 1 + eb.len()) =~= eb) by {
                lemma_subrange_of_subrange(s, pos, e.len() as int, 1, e.len() as int);
                assert(e.subrange(1, e.len() as int) =~= eb);
            }
            lemma_dec_bytes_at(s, pos + 1, b);
        },
    }
}

/// Reading a cause where one was written.
pub proof fn lemma_dec_cause_at(s: Seq<u8>, pos: int, c: StateChangeCause)
    requires
        0 <= pos,
        pos + 1 <= s.len(),
        s[pos] == spec_cause_tag(c),
    ensures
        spec_dec_cause(s, pos) == Some((c, pos + 1)),
{
    lemma_cause_tag_round_trip(c);
}

/// Reading one change where one was written.
pub proof fn lemma_dec_change_at(s: Seq<u8>, pos: int, c: RawStateChangeView)
    requires
        0 <= pos,
        (c.data matches Some(b) ==> b.len() <= u64::MAX),
        pos + spec_enc_change(c).len() <= s.len(),
        s.subrange(pos, pos + spec_enc_change(c).len()) == spec_enc_change(c),
    ensures
        spec_dec_change(s, pos) == Some((c, pos + spec_enc_change(c).len())),
{
    lemma_auto_spec_u64_to_from_le_bytes();
    let e = spec_enc_change(c);
    let eo = spec_enc_opt_bytes(c.data);
    assert(s[pos] == e[0]) by {
        assert(s.subrange(pos, pos + e.len())[0] == s[pos]);
    }
    lemma_dec_cause_at(s, pos, c.cause);
    assert(s.subrange(pos + 1, pos + 1 + eo.len()) =~= eo) by {
        lemma_subrange_of_subrange(s, pos, e.len() as int, 1, e.len() as int);
        assert(e.subrange(1, e.len() as int) =~= eo);
    }
    lemma_dec_opt_bytes_at(s, pos + 1, c.data);
}

/// Every change's data fits its length prefix.
pub open spec fn spec_changes_wf(l: Seq<RawStateChangeView>) -> bool {
    forall|i: int|
        0 <= i < l.len() ==> match (#[trigger] l[i]).data {
            Some(b) => b.len() <= u64::MAX,
            None => true,
        }
}

/// Reading a change list where one was written.
pub proof fn lemma_dec_change_list_at(s: Seq<u8>, pos: int, l: Seq<RawStateChangeView>)
    requires
        0 <= pos,
        spec_changes_wf(l),
        pos + spec_enc_change_list(l).len() <= s.len(),
        s.subrange(pos, pos + spec_enc_change_list(l).len()) == spec_enc_change_list(l),
    ensures
        spec_dec_change_list(s, pos, l.len()) == Some((l, pos + spec_enc_change_list(l).len())),
    decreases l.len(),
{
    lemma_auto_spec_u64_to_from_le_bytes();
    if l.len() == 0 {
        assert(l =~= Seq::<RawStateChangeView>::empty());
    } else {
        let e = spec_enc_change_list(l);
        let e0 = spec_enc_change(l[0]);
        let erest = spec_enc_change_list(l.drop_first());
        assert(e == e0 + erest);
        assert(s.subrange(pos, pos + e0.len()) =~= e0) by {
            lemma_subrange_of_subrange(s, pos, e.len() as int, 0, e0.len() as int);
            assert(e.subrange(0, e0.len() as int) =~= e0);
        }
        lemma_dec_change_at(s, pos, l[0]);
        let p = pos + e0.len() as int;
        assert(s.subrange(p, p + erest.len()) =~= erest) by {
            lemma_subrange_of_subrange(s, pos, e.len() as int, e0.len() as int, e.len() as int);
            assert(e.subrange(e0.len() as int, e.len() as int) =~= erest);
        }
        assert(spec_changes_wf(l.drop_first())) by {
            assert(forall|i: int|
                0 <= i < l.drop_first().len() ==> #[trigger] l.drop_first()[i] == l[i + 1]);
        }
        lemma_dec_change_list_at(s, p, l.drop_first());
        assert(seq![l[0]] + l.drop_first() =~= l);
    }
}

/// Reading a trie key where one was written.
pub proof fn lemma_dec_trie_key_at(s: Seq<u8>, pos: int, k: TrieKeyView)
    requires
        0 <= pos,
        spec_trie_key_fields_wf(k),
        pos + spec_enc_trie_key(k).len() <= s.len(),
        s.subrange(pos, pos + spec_enc_trie_key(k).len()) == spec_enc_trie_key(k),
    ensures
        spec_dec_trie_key(s, pos) == Some((k, pos + spec_enc_trie_key(k).len())),
{
    lemma_auto_spec_u64_to_from_le_bytes();
    let e = spec_enc_trie_key(k);
    assert(s[pos] == e[0]) by {
        assert(s.subrange(pos, pos + e.len())[0] == s[pos]);
    }
    match k {
        TrieKeyView::Account { account_id } => {
            let eb = spec_enc_bytes(account_id);
            assert(s.subrange(pos + 1, pos + 1 + eb.len()) =~= eb) by {
                lemma_subrange_of_subrange(s, pos, e.len() as int, 1, e.len() as int);
                assert(e.subrange(1, e.len() as int) =~= eb);
            }
            lemma_dec_bytes_at(s, pos + 1, account_id);
        },
        TrieKeyView::ContractCode { account_id } => {
            let eb = spec_enc_bytes(account_id);
            assert(s.subrange(pos + 1, pos + 1 + eb.len()) =~= eb) by {
                lemma_subrange_of_subrange(s, pos, e.len() as int, 1, e.len() as int);
                assert(e.subrange(1, e.len() as int) =~= eb);
            }
            lemma_dec_bytes_at(s, pos + 1, account_id);
        },
        TrieKeyView::AccessKey { account_id, public_key } => {
            let ea = spec_enc_bytes(account_id);
            let ep = spec_enc_bytes(public_key);
            assert(s.subrange(pos + 1, pos + 1 + ea.len()) =~= ea) by {
                lemma_subrange_of_subrange(s, pos, e.len() as int, 1, 1 + ea.len() as int);
                assert(e.subrange(1, 1 + ea.len() as int) =~= ea);
            }
            lemma_dec_bytes_at(s, pos + 1, account_id);
            let q = pos + 1 + ea.len() as int;
            assert(s.subrange(q, q + ep.len()) =~= ep) by {
                lemma_subrange_of_subrange(
                    s,
                    pos,
                    e.len() as int,
                    1 + ea.len() as int,
                    e.len() as int,
                );
                assert(e.subrange(1 + ea.len() as int, e.len() as int) =~= ep);
            }
            lemma_dec_bytes_at(s, q, public_key);
        },
        TrieKeyView::ContractData { account_id, key } => {
            let ea = spec_enc_bytes(account_id);
            let ep = spec_enc_bytes(key);
            assert(s.subrange(pos + 1, pos + 1 + ea.len()) =~= ea) by {
                lemma_subrange_of_subrange(s, pos, e.len() as int, 1, 1 + ea.len() as int);
                assert(e.subrange(1, 1 + ea.len() as int) =~= ea);
            }
            lemma_dec_bytes_at(s, pos + 1, account_id);
            let q = pos + 1 + ea.len() as int;
            assert(s.subrange(q, q + ep.len()) =~= ep) by {
                lemma_subrange_of_subrange(
                    s,
                    pos,
                    e.len() as int,
                    1 + ea.len() as int,
                    e.len() as int,
                );
                assert(e.subrange(1 + ea.len() as int, e.len() as int) =~= ep);
            }
            lemma_dec_bytes_at(s, q, key);
        },
        TrieKeyView::DelayedReceiptIndices => {
        },
        TrieKeyView::DelayedReceipt { index } => {
            lemma_auto_spec_u64_to_from_le_bytes();
            assert(s.subrange(pos + 1, pos + 9) =~= spec_u64_to_le_bytes(index)) by {
                lemma_subrange_of_subrange(s, pos, e.len() as int, 1, 9);
                assert(e.subrange(1, 9) =~= spec_u64_to_le_bytes(index));
            }
            lemma_dec_u64_at(s, pos + 1, index);
        },
    }
}

/// Decoding a record's encoding yields the record back: the durable format
/// is lossless for every well-formed record.
pub proof fn lemma_record_round_trip(r: RawStateChangesView)
    requires
        spec_record_wf(r),
    ensures
        spec_dec_record(spec_enc_record(r)) == Some(r),
{
    let s = spec_enc_record(r);
    let ek = spec_enc_trie_key(r.trie_key);
    let en = spec_u64_to_le_bytes(r.changes.len() as u64);
    let el = spec_enc_change_list(r.changes);
    lemma_auto_spec_u64_to_from_le_bytes();
    assert(s == ek + en + el);
    assert(s.subrange(0, ek.len() as int) =~= ek);
    lemma_dec_trie_key_at(s, 0, r.trie_key);
    let p = ek.len() as int;
    assert(s.subrange(p, p + 8) =~= en);
    lemma_dec_u64_at(s, p, r.changes.len() as u64);
    let q = p + 8;
    assert(s.subrange(q, q + el.len()) =~= el);
    assert(spec_changes_wf(r.changes));
    lemma_dec_change_list_at(s, q, r.changes);
    assert((r.changes.len() as u64) as nat == r.changes.len());
}

// ---------------------------------------------------------------------------
// Executable encoding and decoding.
// ---------------------------------------------------------------------------

/// Encoding distributes over appending a change at the end.
pub proof fn lemma_enc_change_list_push(l: Seq<RawStateChangeView>, c: RawStateChangeView)
    ensures
        spec_enc_change_list(l.push(c)) == spec_enc_change_list(l) + spec_enc_change(c),
    decreases l.len(),
{
    if l.len() == 0 {
        assert(l.push(c)[0] == c);
        assert(l.push(c).drop_first() =~= Seq::<RawStateChangeView>::empty());
        assert(spec_enc_change_list(l) + spec_enc_change(c) =~= spec_enc_change(c));
        assert(spec_enc_change(c) + spec_enc_change_list(Seq::<RawStateChangeView>::empty())
            =~= spec_enc_change(c));
    } else {
        assert(l.push(c)[0] == l[0]);
        assert(l.push(c).drop_first() =~= l.drop_first().push(c));
        lemma_enc_change_list_push(l.drop_first(), c);
        assert(spec_enc_change(l[0]) + (spec_enc_change_list(l.drop_first()) + spec_enc_change(c))
            =~= (spec_enc_change(l[0]) + spec_enc_change_list(l.drop_first())) + spec_enc_change(
            c,
        ));
    }
}

/// Appends a length-prefixed byte string.
fn enc_bytes_exec(out: &mut Vec<u8>, b: &Vec<u8>)
    ensures
        final(out)@ == old(out)@ + spec_enc_bytes(b@),
{
    let mut l = u64_to_le_bytes(b.len() as u64);
    out.append(&mut l);
    extend_bytes(out, b.as_slice());
    proof {
        assert(out@ =~= old(out)@ + spec_enc_bytes(b@));
    }
}

/// The tag byte of a cause.
fn cause_tag_exec(c: StateChangeCause) -> (r: u8)
    ensures
        r == spec_cause_tag(c),
{
    match c {
        StateChangeCause::NotWritableToDisk => 0,
        StateChangeCause::InitialState => 1,
        StateChangeCause::TransactionProcessing => 2,
        StateChangeCause::ActionReceiptProcessingStarted => 3,
        StateChangeCause::ActionReceiptGasReward => 4,
        StateChangeCause::ReceiptProcessing => 5,
        StateChangeCause::PostponedReceipt => 6,
        StateChangeCause::UpdatedDelayedReceipts => 7,
        StateChangeCause::ValidatorAccountsUpdate => 8,
        StateChangeCause::Migration => 9,
        StateChangeCause::Resharding => 10,
    }
}

/// The cause a tag byte names.
fn cause_of_tag_exec(t: u8) -> (r: Option<StateChangeCause>)
    ensures
        r == spec_cause_of_tag(t),
{
    if t == 0 {
        Some(StateChangeCause::NotWritableToDisk)
    } else if t == 1 {
        Some(StateChangeCause::InitialState)
    } else if t == 2 {
        Some(StateChangeCause::TransactionProcessing)
    } else if t == 3 {
        Some(StateChangeCause::ActionReceiptProcessingStarted)
    } else if t == 4 {
        Some(StateChangeCause::ActionReceiptGasReward)
    } else if t == 5 {
        Some(StateChangeCause::ReceiptProcessing)
    } else if t == 6 {
        Some(StateChangeCause::PostponedReceipt)
    } else if t == 7 {
        Some(StateChangeCause::UpdatedDelayedReceipts)
    } else if t == 8 {
        Some(StateChangeCause::ValidatorAccountsUpdate)
    } else if t == 9 {
        Some(StateChangeCause::Migration)
    } else if t == 10 {
        Some(StateChangeCause::Resharding)
    } else {
        None
    }
}

/// Encodes a record into the bytes the change log stores.
pub fn encode_state_changes(record: &RawStateChangesWithTrieKey) -> (r: Vec<u8>)
    ensures
        r@ == spec_enc_record(record@),
{
    let mut out: Vec<u8> = Vec::new();
    match &record.trie_key {
        TrieKey::Account { account_id } => {
            out.push(0);
            enc_bytes_exec(&mut out, account_id);
            proof {
                assert(out@ =~= spec_enc_trie_key(record.trie_key@));
            }
        },
        TrieKey::ContractCode { account_id } => {
            out.push(1);
            enc_bytes_exec(&mut out, account_id);
            proof {
                assert(out@ =~= spec_enc_trie_key(record.trie_key@));
            }
        },
        TrieKey::AccessKey { account_id, public_key } => {
            out.push(2);
            enc_bytes_exec(&mut out, account_id);
            enc_bytes_exec(&mut out, public_key);
            proof {
                assert(out@ =~= spec_enc_trie_key(record.trie_key@));
            }
        },
        TrieKey::ContractData { account_id, key } => {
            out.push(3);
            enc_bytes_exec(&mut out, account_id);
            enc_bytes_exec(&mut out, key);
            proof {
                assert(out@ =~= spec_enc_trie_key(record.trie_key@));
            }
        },
        TrieKey::DelayedReceiptIndices => {
            out.push(4);
            proof {
                assert(out@ =~= spec_enc_trie_key(record.trie_key@));
            }
        },
        TrieKey::DelayedReceipt { index } => {
            out.push(5);
            let mut tail = u64_to_le_bytes(*index);
            out.append(&mut tail);
            proof {
                assert(out@ =~= spec_enc_trie_key(record.trie_key@));
            }
        },
    }
    let mut count = u64_to_le_bytes(record.changes.len() as u64);
    out.append(&mut count);
    let ghost head = spec_enc_trie_key(record.trie_key@) + spec_u64_to_le_bytes(
        record.changes@.len() as u64,
    );
    let ghost cv = change_views(record.changes@);
    proof {
        assert(out@ =~= head + spec_enc_change_list(cv.subrange(0, 0)));
    }
    let mut i: usize = 0;
    let n = record.changes.len();
    while i < n
        invariant
            n == record.changes@.len(),
            cv == change_views(record.changes@),
            head == spec_enc_trie_key(record.trie_key@) + spec_u64_to_le_bytes(
                record.changes@.len() as u64,
            ),
            i <= n,
            out@ == head + spec_enc_change_list(cv.subrange(0, i as int)),
        decreases n - i,
    {
        let change = &record.changes[i];
        out.push(cause_tag_exec(change.cause));
        match &change.data {
            None => {
                out.push(0);
            },
            Some(b) => {
                out.push(1);
                enc_bytes_exec(&mut out, b);
            },
        }
        proof {
            lemma_change_views(record.changes@);
            assert(cv.subrange(0, i + 1) =~= cv.subrange(0, i as int).push(cv[i as int]));
            lemma_enc_change_list_push(cv.subrange(0, i as int), cv[i as int]);
            assert(spec_enc_change(cv[i as int]) =~= seq![spec_cause_tag(change.cause)]
                + spec_enc_opt_bytes(change@.data));
            assert(out@ =~= head + spec_enc_change_list(cv.subrange(0, i + 1)));
        }
        i += 1;
    }
    proof {
        assert(cv.subrange(0, cv.len() as int) =~= cv);
        assert(out@ =~= spec_enc_record(record@));
    }
    out
}

/// Reads a count.
fn dec_u64_exec(s: &[u8], pos: usize) -> (r: Option<(u64, usize)>)
    requires
        pos <= s@.len(),
    ensures
        match r {
            Some(v) => spec_dec_u64(s@, pos as int) == Some((v.0, v.1 as int)) && v.1 <= s@.len(),
            None => spec_dec_u64(s@, pos as int) is None,
        },
{
    if s.len() - pos >= 8 {
        let x = u64_from_le_bytes(slice_subrange(s, pos, pos + 8));
        Some((x, pos + 8))
    } else {
        None
    }
}

/// Reads a length-prefixed byte string.
fn dec_bytes_exec(s: &[u8], pos: usize) -> (r: Option<(Vec<u8>, usize)>)
    requires
        pos <= s@.len(),
    ensures
        match r {
            Some(v) => spec_dec_bytes(s@, pos as int) == Some((v.0@, v.1 as int)) && v.1
                <= s@.len(),
            None => spec_dec_bytes(s@, pos as int) is None,
        },
{
    match dec_u64_exec(s, pos) {
        None => None,
        Some((n, p)) => {
            let remaining = s.len() - p;
            if n <= remaining as u64 {
                let nn = n as usize;
                proof {
                    assert(nn as u64 == n);
                }
                let b = slice_to_vec(slice_subrange(s, p, p + nn));
                Some((b, p + nn))
            } else {
                None
            }
        },
    }
}

/// Reads optional bytes.
fn dec_opt_bytes_exec(s: &[u8], pos: usize) -> (r: Option<(Option<Vec<u8>>, usize)>)
    requires
        pos <= s@.len(),
    ensures
        match r {
            Some(v) => spec_dec_opt_bytes(s@, pos as int) == Some(
                (spec_opt_bytes_view(v.0), v.1 as int),
            ) && v.1 <= s@.len(),
            None => spec_dec_opt_bytes(s@, pos as int) is None,
        },
{
    if pos < s.len() {
        let tag = *vstd::slice::slice_index_get(s, pos);
        if tag == 0 {
            Some((None, pos + 1))
        } else if tag == 1 {
            match dec_bytes_exec(s, pos + 1) {
                None => None,
                Some((b, p)) => Some((Some(b), p)),
            }
        } else {
            None
        }
    } else {
        None
    }
}

/// Reads a cause.
fn dec_cause_exec(s: &[u8], pos: usize) -> (r: Option<(StateChangeCause, usize)>)
    requires
        pos <= s@.len(),
    ensures
        match r {
            Some(v) => spec_dec_cause(s@, pos as int) == Some((v.0, v.1 as int)) && v.1
                <= s@.len(),
            None => spec_dec_cause(s@, pos as int) is None,
        },
{
    if pos < s.len() {
        let tag = *vstd::slice::slice_index_get(s, pos);
        match cause_of_tag_exec(tag) {
            None => None,
            Some(c) => Some((c, pos + 1)),
        }
    } else {
        None
    }
}

/// Reads one change.
fn dec_change_exec(s: &[u8], pos: usize) -> (r: Option<(RawStateChange, usize)>)
    requires
        pos <= s@.len(),
    ensures
        match r {
            Some(v) => spec_dec_change(s@, pos as int) == Some((v.0@, v.1 as int)) && v.1
                <= s@.len(),
            None => spec_dec_change(s@, pos as int) is None,
        },
{
    match dec_cause_exec(s, pos) {
        None => None,
        Some((cause, p)) => match dec_opt_bytes_exec(s, p) {
            None => None,
            Some((data, q)) => Some((RawStateChange { cause, data }, q)),
        },
    }
}

/// Reads exactly `n` changes.
fn dec_change_list_exec(s: &[u8], pos: usize, n: u64) -> (r: Option<(Vec<RawStateChange>, usize)>)
    requires
        pos <= s@.len(),
    ensures
        match r {
            Some(v) => spec_dec_change_list(s@, pos as int, n as nat) == Some(
                (change_views(v.0@), v.1 as int),
            ) && v.1 <= s@.len(),
            None => spec_dec_change_list(s@, pos as int, n as nat) is None,
        },
    decreases n,
{
    if n == 0 {
        let empty: Vec<RawStateChange> = Vec::new();
        proof {
            assert(change_views(empty@) =~= Seq::<RawStateChangeView>::empty());
        }
        Some((empty, pos))
    } else {
        match dec_change_exec(s, pos) {
            None => None,
            Some((c, p)) => {
                match dec_change_list_exec(s, p, n - 1) {
                    None => None,
                    Some((rest, q)) => {
                        let ghost rest_before = rest@;
                        let mut list = rest;
                        list.insert(0, c);
                        proof {
                            lemma_change_views(rest_before);
                            lemma_change_views(list@);
                            assert(change_views(list@) =~= seq![c@] + change_views(rest_before));
                        }
                        Some((list, q))
                    },
                }
            },
        }
    }
}

/// Reads a trie key.
fn dec_trie_key_exec(s: &[u8], pos: usize) -> (r: Option<(TrieKey, usize)>)
    requires
        pos <= s@.len(),
    ensures
        match r {
            Some(v) => spec_dec_trie_key(s@, pos as int) == Some((v.0@, v.1 as int)) && v.1
                <= s@.len(),
            None => spec_dec_trie_key(s@, pos as int) is None,
        },
{
    if pos < s.len() {
        let tag = *vstd::slice::slice_index_get(s, pos);
        if tag == 0 {
            match dec_bytes_exec(s, pos + 1) {
                None => None,
                Some((account_id, p)) => Some((TrieKey::Account { account_id }, p)),
            }
        } else if tag == 1 {
            match dec_bytes_exec(s, pos + 1) {
                None => None,
                Some((account_id, p)) => Some((TrieKey::ContractCode { account_id }, p)),
            }
        } else if tag == 2 {
            match dec_bytes_exec(s, pos + 1) {
                None => None,
                Some((account_id, p)) => match dec_bytes_exec(s, p) {
                    None => None,
                    Some((public_key, q)) => Some(
                        (TrieKey::AccessKey { account_id, public_key }, q),
                    ),
                },
            }
        } else if tag == 3 {
            match dec_bytes_exec(s, pos + 1) {
                None => None,
                Some((account_id, p)) => match dec_bytes_exec(s, p) {
                    None => None,
                    Some((key, q)) => Some((TrieKey::ContractData { account_id, key }, q)),
                },
            }
        } else if tag == 4 {
            Some((TrieKey::DelayedReceiptIndices, pos + 1))
        } else if tag == 5 {
            match dec_u64_exec(s, pos + 1) {
                None => None,
                Some((index, p)) => Some((TrieKey::DelayedReceipt { index }, p)),
            }
        } else {
            None
        }
    } else {
        None
    }
}

/// Decodes a stored change-log value back into its record.  Exactly the
/// values [`encode_state_changes`] produces are accepted.
pub fn decode_state_changes(bytes: &Vec<u8>) -> (r: Result<RawStateChangesWithTrieKey, StoreError>)
    ensures
        match r {
            Ok(rec) => spec_dec_record(bytes@) == Some(rec@),
            Err(e) => spec_dec_record(bytes@) is None && e == StoreError::CorruptChangeRecord,
        },
{
    match dec_trie_key_exec(bytes.as_slice(), 0) {
        None => Err(StoreError::CorruptChangeRecord),
        Some((trie_key, p)) => match dec_u64_exec(bytes.as_slice(), p) {
            None => Err(StoreError::CorruptChangeRecord),
            Some((n, q)) => match dec_change_list_exec(bytes.as_slice(), q, n) {
                None => Err(StoreError::CorruptChangeRecord),
                Some((changes, end)) => {
                    if end == bytes.len() {
                        Ok(RawStateChangesWithTrieKey { trie_key, changes })
                    } else {
                        Err(StoreError::CorruptChangeRecord)
                    }
                },
            },
        },
    }
}

} // verus!
