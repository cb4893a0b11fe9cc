//! The digest primitive and the proof-of-work difficulty predicate.

use vstd::prelude::*;

verus! {

/// The Keccak-256 digest of a byte sequence: 32 bytes, a function of the
/// input bytes alone.
pub uninterp spec fn keccak_of(bytes: Seq<u8>) -> Seq<u8>;

/// Relies on `crypto::sha3::Sha3::keccak256` together with
/// `crypto::digest::Digest::input` and `crypto::digest::Digest::result`:
/// absorbing `bytes` and squeezing a 32-byte output yields the Keccak-256
/// digest of `bytes`, a deterministic function of those bytes alone.
#[verifier::external_body]
pub(crate) fn keccak256(bytes: &[u8]) -> (r: [u8; 32])
    ensures
        r@ == keccak_of(bytes@),
{
    let mut sha3 = crypto::sha3::Sha3::keccak256();
    crypto::digest::Digest::input(&mut sha3, bytes);
    let mut out = [0u8; 32];
    crypto::digest::Digest::result(&mut sha3, &mut out);
    out
}

/// The difficulty predicate for a target of `target` leading zero hex
/// nibbles: the first `target / 2` bytes of the digest are zero, and, when
/// `target` is odd, the high nibble of the following byte is zero as well.
pub open spec fn meets_target(digest: Seq<u8>, target: usize) -> bool {
    let whole_bytes = target / 2;
    &&& forall|i: int| 0 <= i < whole_bytes ==> digest[i] == 0u8
    &&& (target % 2 == 1 ==> digest[whole_bytes as int] & 0xf0 == 0u8)
}

/// Target parity: on a digest whose first `target / 2` bytes are zero, an
/// even target asks nothing more, while an odd target accepts exactly the
/// digests whose next byte has a zero high nibble.
pub proof fn lemma_target_parity(digest: Seq<u8>, target: usize)
    requires
        forall|i: int| 0 <= i < target / 2 ==> digest[i] == 0u8,
    ensures
        target % 2 == 0 ==> meets_target(digest, target),
        target % 2 == 1 ==> (meets_target(digest, target) <==> digest[target as int / 2]
            & 0xf0 == 0u8),
{
}

/// Decides the difficulty predicate on a 32-byte digest, for either parity
/// of the target.
pub fn meets_target_exec(digest: &[u8; 32], target: usize) -> (r: bool)
    requires
        target <= 64,
    ensures
        r == meets_target(digest@, target),
{
    let whole_bytes = target / 2;
    let mut i: usize = 0;
    while i < whole_bytes
        invariant
            target <= 64,
            whole_bytes == target / 2,
            i <= whole_bytes,
            forall|j: int| 0 <= j < i ==> digest@[j] == 0u8,
        decreases whole_bytes - i,
    {
        if digest[i] != 0u8 {
            return false;
        }
        i += 1;
    }
    if target % 2 == 1 {
        digest[whole_bytes] & 0xf0 == 0u8
    } else {
        true
    }
}

} // verus!
