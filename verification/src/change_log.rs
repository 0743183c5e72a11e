//! The block-scoped index over account-level state changes.
//!
//! A change-log key is a fixed-width block-hash prefix followed by the trie
//! key's canonical byte encoding, so a forward scan bounded to the prefix
//! serves point and prefix lookups without replaying the trie.

use vstd::prelude::*;
use crate::bytes::{extend_bytes, is_prefix_of};
use crate::db::{spec_kv_with_prefix, DBCol, KvEntryView, Store};
use crate::errors::StoreError;
use crate::hash::{CryptoHash, HASH_LEN};
use crate::state_changes::{
    decode_state_changes, spec_dec_record, spec_enc_record, spec_record_wf,
    RawStateChangesView, RawStateChangesWithTrieKey,
};
use crate::trie_key::{spec_trie_key_bytes, TrieKey, TrieKeyView};

verus! {

/// A lookup key into the change log: the block hash, then (for point
/// lookups) the trie key's canonical encoding.
#[derive(Debug)]
pub struct KeyForStateChanges {
    key: Vec<u8>,
}

impl View for KeyForStateChanges {
    type V = Seq<u8>;

    closed spec fn view(&self) -> Seq<u8> {
        self.key@
    }
}

/// What one stored value contributes to a scan: the decoded record, or the
/// decode failure.
pub open spec fn spec_scan_result(value: Seq<u8>) -> Result<RawStateChangesView, StoreError> {
    match spec_dec_record(value) {
        Some(r) => Ok(r),
        None => Err(StoreError::CorruptChangeRecord),
    }
}

/// The results a prefix scan returns: every entry whose key starts with the
/// scan key, in stored order, each value decoded.
pub open spec fn spec_find_results(column: Seq<KvEntryView>, prefix: Seq<u8>) -> Seq<
    Result<RawStateChangesView, StoreError>,
> {
    spec_kv_with_prefix(column, prefix).map_values(|e: KvEntryView| spec_scan_result(e.value))
}

/// Unfolds [`spec_find_results`] pointwise.
pub proof fn lemma_find_results(column: Seq<KvEntryView>, prefix: Seq<u8>)
    ensures
        spec_find_results(column, prefix).len() == spec_kv_with_prefix(column, prefix).len(),
        forall|i: int|
            0 <= i < spec_kv_with_prefix(column, prefix).len() ==> #[trigger] spec_find_results(
                column,
                prefix,
            )[i] == spec_scan_result(spec_kv_with_prefix(column, prefix)[i].value),
{
}

/// The exact-length filter over scan results: decode failures are kept, a
/// record is kept exactly when its trie key's encoding has the queried
/// length.
pub open spec fn spec_exact_filter(
    rs: Seq<Result<RawStateChangesView, StoreError>>,
    trie_key_len: int,
) -> Seq<Result<RawStateChangesView, StoreError>>
    decreases rs.len(),
{
    if rs.len() == 0 {
        rs
    } else {
        let rest = spec_exact_filter(rs.drop_first(), trie_key_len);
        match rs[0] {
            Err(e) => seq![Err::<RawStateChangesView, StoreError>(e)] + rest,
            Ok(r) => if spec_trie_key_bytes(r.trie_key).len() == trie_key_len {
                seq![Ok::<RawStateChangesView, StoreError>(r)] + rest
            } else {
                rest
            },
        }
    }
}

/// The exact filter distributes over appending one result.
pub proof fn lemma_exact_filter_push(
    rs: Seq<Result<RawStateChangesView, StoreError>>,
    x: Result<RawStateChangesView, StoreError>,
    trie_key_len: int,
)
    ensures
        spec_exact_filter(rs.push(x), trie_key_len) == spec_exact_filter(rs, trie_key_len)
            + match x {
            Err(e) => seq![Err::<RawStateChangesView, StoreError>(e)],
            Ok(r) => if spec_trie_key_bytes(r.trie_key).len() == trie_key_len {
                seq![Ok::<RawStateChangesView, StoreError>(r)]
            } else {
                Seq::empty()
            },
        },
    decreases rs.len(),
{
    let delta = match x {
        Err(e) => seq![Err::<RawStateChangesView, StoreError>(e)],
        Ok(r) => if spec_trie_key_bytes(r.trie_key).len() == trie_key_len {
            seq![Ok::<RawStateChangesView, StoreError>(r)]
        } else {
            Seq::<Result<RawStateChangesView, StoreError>>::empty()
        },
    };
    if rs.len() == 0 {
        assert(rs.push(x)[0] == x);
        assert(rs.push(x).drop_first() =~= rs);
        assert(spec_exact_filter(rs, trie_key_len) + delta =~= delta);
        match x {
            Err(e) => {
                assert(spec_exact_filter(rs.push(x), trie_key_len) =~= delta);
            },
            Ok(r) => {
                assert(spec_exact_filter(rs.push(x), trie_key_len) =~= delta);
            },
        }
    } else {
        assert(rs.push(x)[0] == rs[0]);
        assert(rs.push(x).drop_first() =~= rs.drop_first().push(x));
        lemma_exact_filter_push(rs.drop_first(), x, trie_key_len);
        let rest = spec_exact_filter(rs.drop_first(), trie_key_len);
        match rs[0] {
            Err(e) => {
                assert(seq![Err::<RawStateChangesView, StoreError>(e)] + (rest + delta) =~= (seq![
                    Err::<RawStateChangesView, StoreError>(e),
                ] + rest) + delta);
            },
            Ok(r) => {
                if spec_trie_key_bytes(r.trie_key).len() == trie_key_len {
                    assert(seq![Ok::<RawStateChangesView, StoreError>(r)] + (rest + delta)
                        =~= (seq![Ok::<RawStateChangesView, StoreError>(r)] + rest) + delta);
                }
            },
        }
    }
}

/// The views of a result list.
pub open spec fn result_views(s: Seq<Result<RawStateChangesWithTrieKey, StoreError>>) -> Seq<
    Result<RawStateChangesView, StoreError>,
> {
    s.map_values(
        |r: Result<RawStateChangesWithTrieKey, StoreError>|
            match r {
                Ok(rec) => Ok(rec@),
                Err(e) => Err(e),
            },
    )
}

/// Unfolds [`result_views`] pointwise.
pub proof fn lemma_result_views(s: Seq<Result<RawStateChangesWithTrieKey, StoreError>>)
    ensures
        result_views(s).len() == s.len(),
        forall|i: int|
            0 <= i < s.len() ==> #[trigger] result_views(s)[i] == match s[i] {
                Ok(rec) => Ok::<RawStateChangesView, StoreError>(rec@),
                Err(e) => Err::<RawStateChangesView, StoreError>(e),
            },
{
}

impl KeyForStateChanges {
    #[verifier::type_invariant]
    closed spec fn wf(self) -> bool {
        self.key@.len() >= HASH_LEN
    }

    /// The fixed width of the block-hash prefix.
    fn estimate_prefix_len() -> (r: usize)
        ensures
            r == HASH_LEN,
    {
        HASH_LEN
    }

    /// The block-hash prefix as a fresh buffer.
    fn new_prefix(block_hash: &CryptoHash) -> (r: Vec<u8>)
        ensures
            r@ == block_hash@,
            r@.len() == HASH_LEN,
    {
        vstd::slice::slice_to_vec(block_hash.as_bytes().as_slice())
    }

    /// The scan key of a whole block: its entries are every change logged
    /// under the block.
    pub fn for_block(block_hash: &CryptoHash) -> (r: Self)
        ensures
            r@ == block_hash@,
    {
        KeyForStateChanges { key: Self::new_prefix(block_hash) }
    }

    /// The scan key of raw trie-key bytes under a block.
    pub fn from_raw_key(block_hash: &CryptoHash, raw_key: &[u8]) -> (r: Self)
        ensures
            r@ == block_hash@ + raw_key@,
    {
        let mut key = Self::new_prefix(block_hash);
        extend_bytes(&mut key, raw_key);
        KeyForStateChanges { key }
    }

    /// The lookup key of one trie key under a block: the block hash, then
    /// the trie key's canonical encoding.
    pub fn from_trie_key(block_hash: &CryptoHash, trie_key: &TrieKey) -> (r: Self)
        ensures
            r@ == block_hash@ + spec_trie_key_bytes(trie_key@),
    {
        let mut key = Self::new_prefix(block_hash);
        trie_key.append_into(&mut key);
        KeyForStateChanges { key }
    }

    /// The key's bytes.
    pub fn as_bytes(&self) -> (r: &Vec<u8>)
        ensures
            r@ == self@,
    {
        &self.key
    }

    /// The key's bytes, handing the allocation over.
    pub fn into_bytes(self) -> (r: Vec<u8>)
        ensures
            r@ == self@,
    {
        self.key
    }

    /// Scans the change log for every entry under this key's prefix, in
    /// stored order, decoding each stored value.
    pub fn find_iter(&self, store: &Store) -> (r: Vec<
        Result<RawStateChangesWithTrieKey, StoreError>,
    >)
        ensures
            result_views(r@) == spec_find_results(store@.state_changes, self@),
    {
        let entries = store.iter_prefix(DBCol::StateChanges, self.key.as_slice());
        let ghost matched = spec_kv_with_prefix(store@.state_changes, self@);
        let mut out: Vec<Result<RawStateChangesWithTrieKey, StoreError>> = Vec::new();
        let mut i: usize = 0;
        let n = entries.len();
        while i < n
            invariant
                n == entries@.len(),
                crate::db::kv_views(entries@) == matched,
                i <= n,
                result_views(out@).len() == i,
                forall|j: int|
                    0 <= j < i ==> #[trigger] result_views(out@)[j] == spec_scan_result(
                        matched[j].value,
                    ),
            decreases n - i,
        {
            let ghost out_before = out@;
            proof {
                crate::db::lemma_kv_views(entries@);
                assert(entries@[i as int]@ == matched[i as int]);
            }
            match decode_state_changes(&entries[i].value) {
                Ok(rec) => out.push(Ok(rec)),
                Err(e) => out.push(Err(e)),
            }
            proof {
                lemma_result_views(out_before);
                lemma_result_views(out@);
                assert(result_views(out@).len() == i + 1);
                assert(result_views(out@)[i as int] == spec_scan_result(matched[i as int].value));
                assert forall|j: int| 0 <= j < i implies #[trigger] result_views(out@)[j]
                    == spec_scan_result(matched[j].value) by {
                    assert(out@[j] == out_before[j]);
                    assert(result_views(out_before)[j] == spec_scan_result(matched[j].value));
                }
            }
            i += 1;
        }
        proof {
            lemma_result_views(out@);
            lemma_find_results(store@.state_changes, self@);
            assert(result_views(out@) =~= spec_find_results(store@.state_changes, self@));
        }
        out
    }

    /// Scans like [`Self::find_iter`], keeping only the records whose trie
    /// key has exactly the queried length.  This disambiguates a trie key
    /// from a longer trie key sharing it as a byte prefix: without the
    /// filter a point query would silently return sibling entries.
    pub fn find_exact_iter(&self, store: &Store) -> (r: Vec<
        Result<RawStateChangesWithTrieKey, StoreError>,
    >)
        ensures
            result_views(r@) == spec_exact_filter(
                spec_find_results(store@.state_changes, self@),
                self@.len() - HASH_LEN,
            ),
    {
        proof {
            use_type_invariant(self);
        }
        let trie_key_len = self.key.len() - Self::estimate_prefix_len();
        let all = self.find_iter(store);
        let ghost results = spec_find_results(store@.state_changes, self@);
        let mut out: Vec<Result<RawStateChangesWithTrieKey, StoreError>> = Vec::new();
        let mut i: usize = 0;
        let n = all.len();
        proof {
            lemma_result_views(all@);
        }
        while i < n
            invariant
                n == all@.len(),
                result_views(all@) == results,
                trie_key_len == self@.len() - HASH_LEN,
                i <= n,
                result_views(out@) == spec_exact_filter(
                    results.subrange(0, i as int),
                    trie_key_len as int,
                ),
            decreases n - i,
        {
            let ghost out_before = out@;
            proof {
                lemma_result_views(all@);
                assert(results.subrange(0, i + 1) =~= results.subrange(0, i as int).push(
                    results[i as int],
                ));
                lemma_exact_filter_push(
                    results.subrange(0, i as int),
                    results[i as int],
                    trie_key_len as int,
                );
            }
            match &all[i] {
                Ok(rec) => {
                    if rec.trie_key.len() == trie_key_len {
                        let record = RawStateChangesWithTrieKey {
                            trie_key: clone_trie_key(&rec.trie_key),
                            changes: clone_changes(&rec.changes),
                        };
                        out.push(Ok(record));
                    }
                },
                Err(e) => {
                    out.push(Err(*e));
                },
            }
            proof {
                lemma_result_views(out_before);
                lemma_result_views(out@);
                assert(result_views(out@) =~= spec_exact_filter(
                    results.subrange(0, i + 1),
                    trie_key_len as int,
                ));
            }
            i += 1;
        }
        proof {
            assert(results.subrange(0, results.len() as int) =~= results);
        }
        out
    }
}

/// A copy of a trie key.
fn clone_trie_key(k: &TrieKey) -> (r: TrieKey)
    ensures
        r@ == k@,
{
    match k {
        TrieKey::Account { account_id } => TrieKey::Account {
            account_id: vstd::slice::slice_to_vec(account_id.as_slice()),
        },
        TrieKey::ContractCode { account_id } => TrieKey::ContractCode {
            account_id: vstd::slice::slice_to_vec(account_id.as_slice()),
        },
        TrieKey::AccessKey { account_id, public_key } => TrieKey::AccessKey {
            account_id: vstd::slice::slice_to_vec(account_id.as_slice()),
            public_key: vstd::slice::slice_to_vec(public_key.as_slice()),
        },
        TrieKey::ContractData { account_id, key } => TrieKey::ContractData {
            account_id: vstd::slice::slice_to_vec(account_id.as_slice()),
            key: vstd::slice::slice_to_vec(key.as_slice()),
        },
        TrieKey::DelayedReceiptIndices => TrieKey::DelayedReceiptIndices,
        TrieKey::DelayedReceipt { index } => TrieKey::DelayedReceipt { index: *index },
    }
}

/// A copy of a change list.
fn clone_changes(s: &Vec<crate::state_changes::RawStateChange>) -> (r: Vec<
    crate::state_changes::RawStateChange,
>)
    ensures
        crate::state_changes::change_views(r@) == crate::state_changes::change_views(s@),
{
    let mut r: Vec<crate::state_changes::RawStateChange> = Vec::new();
    let mut i: usize = 0;
    while i < s.len()
        invariant
            i <= s@.len(),
            crate::state_changes::change_views(r@) == crate::state_changes::change_views(
                s@.subrange(0, i as int),
            ),
        decreases s@.len() - i,
    {
        let c = &s[i];
        let data = match &c.data {
            Some(b) => {
                let copy = Some(vstd::slice::slice_to_vec(b.as_slice()));
                proof {
                    assert(c.data is Some && c.data->0 == *b);
                    assert(crate::bytes::spec_opt_bytes_view(copy)
                        == crate::bytes::spec_opt_bytes_view(c.data));
                }
                copy
            },
            None => {
                let copy: Option<Vec<u8>> = None;
                proof {
                    assert(c.data is None);
                    assert(crate::bytes::spec_opt_bytes_view(copy)
                        == crate::bytes::spec_opt_bytes_view(c.data));
                }
                copy
            },
        };
        let ghost r_before = r@;
        r.push(crate::state_changes::RawStateChange { cause: c.cause, data });
        proof {
            crate::state_changes::lemma_change_views(r_before);
            crate::state_changes::lemma_change_views(r@);
            crate::state_changes::lemma_change_views(s@.subrange(0, i as int));
            crate::state_changes::lemma_change_views(s@.subrange(0, i + 1));
            assert(r@.len() == i + 1);
            assert(r@.last()@ == s@[i as int]@);
            assert(crate::state_changes::change_views(r@)[i as int]
                == crate::state_changes::change_views(s@.subrange(0, i + 1))[i as int]);
            assert forall|j: int| 0 <= j < i implies crate::state_changes::change_views(r@)[j]
                == crate::state_changes::change_views(s@.subrange(0, i + 1))[j] by {
                assert(r@[j] == r_before[j]);
                assert(crate::state_changes::change_views(r_before)[j]
                    == crate::state_changes::change_views(s@.subrange(0, i as int))[j]);
                assert(crate::state_changes::change_views(r@)[j] == r@[j]@);
                assert(s@.subrange(0, i as int)[j] == s@[j]);
                assert(s@.subrange(0, i + 1)[j] == s@[j]);
            }
            assert(crate::state_changes::change_views(r@) =~= crate::state_changes::change_views(
                s@.subrange(0, i + 1),
            ));
        }
        i += 1;
    }
    proof {
        assert(s@.subrange(0, s@.len() as int) =~= s@);
    }
    r
}

/// Querying a log that holds entries for a trie key and for an extension of
/// it under the same block, with the exact-match filter bound to the shorter
/// key, returns only the shorter key's record: the sibling entry survives
/// the prefix scan but not the length filter.
pub proof fn lemma_find_exact_disambiguates(
    column: Seq<KvEntryView>,
    block_hash: Seq<u8>,
    k: TrieKeyView,
    k_ext: TrieKeyView,
    rec: RawStateChangesView,
    rec_ext: RawStateChangesView,
)
    requires
        column.len() == 2,
        column[0].key == block_hash + spec_trie_key_bytes(k),
        column[0].value == spec_enc_record(rec),
        rec.trie_key == k,
        spec_record_wf(rec),
        column[1].key == block_hash + spec_trie_key_bytes(k_ext),
        column[1].value == spec_enc_record(rec_ext),
        rec_ext.trie_key == k_ext,
        spec_record_wf(rec_ext),
        spec_trie_key_bytes(k_ext).len() > spec_trie_key_bytes(k).len(),
        is_prefix_of(block_hash + spec_trie_key_bytes(k), block_hash + spec_trie_key_bytes(k_ext)),
    ensures
        spec_exact_filter(
            spec_find_results(column, block_hash + spec_trie_key_bytes(k)),
            spec_trie_key_bytes(k).len() as int,
        ) =~= seq![Ok::<RawStateChangesView, StoreError>(rec)],
{
    let prefix = block_hash + spec_trie_key_bytes(k);
    let matched = spec_kv_with_prefix(column, prefix);
    assert(is_prefix_of(prefix, column[0].key)) by {
        assert(column[0].key.subrange(0, prefix.len() as int) =~= prefix);
    }
    assert(is_prefix_of(prefix, column[1].key));
    assert(column.drop_first() =~= seq![column[1]]);
    assert(column.drop_first().drop_first() =~= Seq::<KvEntryView>::empty());
    assert(matched =~= seq![column[0], column[1]]) by {
        assert(spec_kv_with_prefix(seq![column[1]], prefix) =~= seq![column[1]] + spec_kv_with_prefix(
            Seq::<KvEntryView>::empty(),
            prefix,
        ));
    }
    crate::state_changes::lemma_record_round_trip(rec);
    crate::state_changes::lemma_record_round_trip(rec_ext);
    lemma_find_results(column, prefix);
    let results = spec_find_results(column, prefix);
    assert(results.len() == 2);
    assert(results[0] == Ok::<RawStateChangesView, StoreError>(rec));
    assert(results[1] == Ok::<RawStateChangesView, StoreError>(rec_ext));
    let klen = spec_trie_key_bytes(k).len() as int;
    assert(results.drop_first() =~= seq![results[1]]);
    let single = seq![results[1]];
    let tail = single.drop_first();
    assert(tail.len() == 0);
    assert(spec_exact_filter(tail, klen) =~= Seq::<
        Result<RawStateChangesView, StoreError>,
    >::empty());
    assert(spec_exact_filter(single, klen) =~= Seq::<
        Result<RawStateChangesView, StoreError>,
    >::empty()) by {
        assert(single[0] == Ok::<RawStateChangesView, StoreError>(rec_ext));
        assert(spec_trie_key_bytes(rec_ext.trie_key).len() != klen);
    }
    assert(results.drop_first() == single);
    assert(spec_exact_filter(results.drop_first(), klen) =~= Seq::<
        Result<RawStateChangesView, StoreError>,
    >::empty());
    assert(spec_trie_key_bytes(rec.trie_key).len() == klen);
    assert(spec_exact_filter(results, klen) =~= seq![Ok::<RawStateChangesView, StoreError>(rec)]);
}

} // verus!
