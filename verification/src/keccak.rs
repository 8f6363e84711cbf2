//! The one cryptographic primitive of the derivation, Keccak-256, reached
//! through a trusted wrapper. The digest itself is left uninterpreted: the
//! contracts of the derivation functions speak of `keccak256_of` by name.

use vstd::prelude::*;

verus! {

/// The Keccak-256 digest of a byte sequence. Left uninterpreted; the
/// trusted wrapper below ties it to the real implementation.
pub uninterp spec fn keccak256_of(data: Seq<u8>) -> Seq<u8>;

/// Relies on `ethers::utils::keccak256`: the digest is 32 bytes long and
/// depends on the input bytes alone.
#[verifier::external_body]
pub(crate) fn keccak256_bytes(data: &[u8]) -> (r: [u8; 32])
    ensures
        r@ == keccak256_of(data@),
{
    ethers::utils::keccak256(data)
}

} // verus!
