//! Content hashes: the identity of trie nodes, values and blocks.

use vstd::prelude::*;

verus! {

/// Number of bytes in a content hash.
pub const HASH_LEN: usize = 32;

/// A content-addressed identifier: exactly [`HASH_LEN`] bytes.
///
/// It names a trie node or value by its cryptographic digest, or a block by
/// its header digest.  This layer never computes digests; it only carries
/// them, compares them and splices them into storage keys.
#[derive(Debug)]
pub struct CryptoHash {
    bytes: Vec<u8>,
}

/// A state root is the hash of the root node of a trie.
pub type StateRoot = CryptoHash;

/// The view of an optional hash.
pub open spec fn spec_opt_hash_view(o: Option<CryptoHash>) -> Option<Seq<u8>> {
    match o {
        Some(h) => Some(h@),
        None => None,
    }
}

impl View for CryptoHash {
    type V = Seq<u8>;

    closed spec fn view(&self) -> Seq<u8> {
        self.bytes@
    }
}

impl CryptoHash {
    #[verifier::type_invariant]
    closed spec fn wf(self) -> bool {
        self.bytes@.len() == HASH_LEN
    }

    /// Wraps `bytes` when they have the length of a hash.
    pub fn new(bytes: Vec<u8>) -> (r: Option<CryptoHash>)
        ensures
            bytes@.len() == HASH_LEN ==> (r matches Some(h) && h@ == bytes@),
            bytes@.len() != HASH_LEN ==> r is None,
    {
        if bytes.len() == HASH_LEN {
            Some(CryptoHash { bytes })
        } else {
            None
        }
    }

    /// The hash's bytes.
    pub fn as_bytes(&self) -> (r: &Vec<u8>)
        ensures
            r@ == self@,
            r@.len() == HASH_LEN,
    {
        proof {
            use_type_invariant(self);
        }
        &self.bytes
    }

    /// Whether two hashes are byte-for-byte the same.
    pub fn equals(&self, other: &CryptoHash) -> (r: bool)
        ensures
            r == (self@ == other@),
    {
        let r = self.bytes == other.bytes;
        proof {
            if r {
                assert(self@ =~= other@);
            } else {
                use_type_invariant(self);
                use_type_invariant(other);
                if self.bytes@.len() == other.bytes@.len() {
                    assert(exists|i: int|
                        0 <= i < self.bytes@.len() && self.bytes@[i] != other.bytes@[i]);
                }
            }
        }
        r
    }
}

impl Clone for CryptoHash {
    /// A clone carries the same bytes.
    fn clone(&self) -> (r: Self)
        ensures
            r@ == self@,
    {
        proof {
            use_type_invariant(self);
        }
        let mut bytes: Vec<u8> = Vec::new();
        let mut i: usize = 0;
        while i < self.bytes.len()
            invariant
                i <= self.bytes@.len(),
                bytes@ == self.bytes@.subrange(0, i as int),
            decreases self.bytes@.len() - i,
        {
            bytes.push(self.bytes[i]);
            i += 1;
        }
        proof {
            assert(bytes@ =~= self.bytes@);
        }
        CryptoHash { bytes }
    }
}

} // verus!
