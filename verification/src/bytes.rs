//! Small helpers on byte vectors used by the key and record encodings.

use vstd::prelude::*;
use vstd::slice::slice_to_vec;

verus! {

/// `p` is a prefix of `v`.
pub open spec fn is_prefix_of(p: Seq<u8>, v: Seq<u8>) -> bool {
    p.len() <= v.len() && v.subrange(0, p.len() as int) == p
}

/// The view of optional bytes.
pub open spec fn spec_opt_bytes_view(o: Option<Vec<u8>>) -> Option<Seq<u8>> {
    if o is Some {
        Some(o->0@)
    } else {
        None
    }
}

/// Appends a copy of `src` to `dst`.
pub fn extend_bytes(dst: &mut Vec<u8>, src: &[u8])
    ensures
        final(dst)@ == old(dst)@ + src@,
{
    let mut tail = slice_to_vec(src);
    dst.append(&mut tail);
}

/// Whether two byte strings hold the same bytes.
pub fn bytes_equal(a: &[u8], b: &[u8]) -> (r: bool)
    ensures
        r == (a@ == b@),
{
    if a.len() != b.len() {
        return false;
    }
    let mut i: usize = 0;
    while i < a.len()
        invariant
            i <= a@.len(),
            a@.len() == b@.len(),
            forall|j: int| 0 <= j < i ==> a@[j] == b@[j],
        decreases a@.len() - i,
    {
        if a[i] != b[i] {
            return false;
        }
        i += 1;
    }
    proof {
        assert(a@ =~= b@);
    }
    true
}

/// Whether `v` starts with `prefix`.
pub fn starts_with(v: &[u8], prefix: &[u8]) -> (r: bool)
    ensures
        r == is_prefix_of(prefix@, v@),
{
    if prefix.len() > v.len() {
        return false;
    }
    let mut i: usize = 0;
    while i < prefix.len()
        invariant
            i <= prefix@.len() <= v@.len(),
            forall|j: int| 0 <= j < i ==> v@[j] == prefix@[j],
        decreases prefix@.len() - i,
    {
        if v[i] != prefix[i] {
            proof {
                assert(v@.subrange(0, prefix@.len() as int)[i as int] != prefix@[i as int]);
            }
            return false;
        }
        i += 1;
    }
    proof {
        assert(v@.subrange(0, prefix@.len() as int) =~= prefix@);
    }
    true
}

} // verus!
