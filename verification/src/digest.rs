//! Content fingerprinting: a fixed-size digest of a file's byte content,
//! used to tell genuine content changes from spurious notifications.

use vstd::prelude::*;

verus! {

/// The digest that the hash function assigns to a byte sequence. The digest
/// is determined by the bytes alone; change detection relies on nothing more
/// than that, plus the hash's collision resistance.
pub uninterp spec fn digest_of(bytes: Seq<u8>) -> Seq<u8>;

/// Relies on sha2::Sha256::digest: a 32-byte digest determined by the input
/// bytes alone.
#[verifier::external_body]
fn sha256(bytes: &[u8]) -> (r: [u8; 32])
    ensures
        r@ == digest_of(bytes@),
{
    <sha2::Sha256 as sha2::Digest>::digest(bytes).into()
}

/// Computes the content fingerprint of the given bytes.
pub fn fingerprint_bytes(bytes: &[u8]) -> (r: [u8; 32])
    ensures
        r@ == digest_of(bytes@),
{
    sha256(bytes)
}

/// Compares two digests byte for byte.
pub fn digest_eq(a: &[u8; 32], b: &[u8; 32]) -> (r: bool)
    ensures
        r == (a@ == b@),
{
    let mut i: usize = 0;
    while i < 32
        invariant
            i <= 32,
            forall|k: int| 0 <= k < i ==> a@[k] == b@[k],
        decreases 32 - i,
    {
        if a[i] != b[i] {
            return false;
        }
        i += 1;
    }
    proof {
        assert(a@ =~= b@);
    }
    true
}

} // verus!
