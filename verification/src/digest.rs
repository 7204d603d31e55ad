//! The digest computer: the content hash that the sender computes
//! before transmission and the receiver recomputes after it. Both
//! sides run the same algorithm, so the hash is a deterministic
//! function of the payload bytes alone.

use vstd::prelude::*;

verus! {

/// The digest that the hash algorithm assigns to a byte sequence.
/// Both roles compute it with the same algorithm, so it is a function
/// of the bytes alone.
pub uninterp spec fn md5_of(data: Seq<u8>) -> Seq<u8>;

/// The byte length of every digest the algorithm produces.
pub const DIGEST_LENGTH: u64 = 16;

/// Relies on md5::compute: the digest is a deterministic function of
/// the input bytes alone, and is always exactly 16 bytes long
/// (md5::Digest wraps a `[u8; 16]`).
#[verifier::external_body]
fn md5_digest(data: &Vec<u8>) -> (r: Vec<u8>)
    ensures
        r@ == md5_of(data@),
        r@.len() == 16,
{
    md5::compute(data.as_slice()).0.to_vec()
}

/// Compute the content digest of a byte buffer.
pub fn compute_digest(data: &Vec<u8>) -> (r: Vec<u8>)
    ensures
        r@ == md5_of(data@),
        r@.len() == DIGEST_LENGTH as int,
{
    md5_digest(data)
}

/// Compare two byte buffers for equality, byte for byte.
pub fn bytes_equal(a: &Vec<u8>, b: &Vec<u8>) -> (r: bool)
    ensures
        r == (a@ == b@),
{
    if a.len() != b.len() {
        assert(a@ != b@);
        return false;
    }
    let n = a.len();
    let mut i: usize = 0;
    while i < n
        invariant
            n == a@.len(),
            n == b@.len(),
            i <= n,
            forall|j: int| 0 <= j < i ==> a@[j] == b@[j],
        decreases n - i,
    {
        if a[i] != b[i] {
            return false;
        }
        i += 1;
    }
    assert(a@ =~= b@);
    true
}

/// Recompute the digest of a received payload and compare it with the
/// digest the sender declared. True exactly when the payload hashes to
/// the declared digest.
pub fn verify_payload(expected_digest: &Vec<u8>, payload: &Vec<u8>) -> (r: bool)
    ensures
        r == (expected_digest@ == md5_of(payload@)),
{
    let actual = compute_digest(payload);
    bytes_equal(expected_digest, &actual)
}

} // verus!
