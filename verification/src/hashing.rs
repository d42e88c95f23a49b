//! Content hashing of compressed payloads.
//!
//! A transfer is identified by the 256-bit content hash of the whole
//! compressed file, computed once by the sender and recomputed by the
//! receiver after reassembly.

use vstd::prelude::*;

verus! {

/// The 32-byte content digest of `data`.
pub uninterp spec fn blake3_of(data: Seq<u8>) -> Seq<u8>;

/// Relies on blake3::hash: the 32-byte digest depends on the input
/// bytes alone — the same bytes give the same digest in every process
/// and on every machine.
#[verifier::external_body]
pub(crate) fn blake3_hash_bytes(data: &Vec<u8>) -> (digest: [u8; 32])
    ensures
        digest@ == blake3_of(data@),
{
    blake3::hash(data.as_slice()).into()
}

/// Byte-wise equality of two 32-byte digests.
pub fn hash_eq(a: &[u8; 32], b: &[u8; 32]) -> (r: bool)
    ensures
        r == (a@ == b@),
{
    let mut i: usize = 0;
    while i < 32
        invariant
            0 <= i <= 32,
            forall|j: int| 0 <= j < i ==> a@[j] == b@[j],
        decreases 32 - i,
    {
        if a[i] != b[i] {
            return false;
        }
        i = i + 1;
    }
    proof {
        assert(a@ =~= b@);
    }
    true
}

} // verus!
