//! Keccak-256 digests, through the `sha3` crate.
use vstd::prelude::*;

verus! {

/// The Keccak-256 digest of a byte string.
pub uninterp spec fn keccak256_of(b: Seq<u8>) -> Seq<u8>;

/// Relies on sha3::Keccak256 through digest::Digest::digest: the 32-byte Keccak-256 digest.
#[verifier::external_body]
fn keccak256(b: &[u8]) -> (r: Vec<u8>)
    ensures
        r@ == keccak256_of(b@),
        r@.len() == 32,
{
    <sha3::Keccak256 as sha3::Digest>::digest(b).to_vec()
}

/// The 32-byte Keccak-256 digest of the bytes.
pub fn keccak256_digest(bytes: &[u8]) -> (r: Vec<u8>)
    ensures
        r@ == keccak256_of(bytes@),
        r@.len() == 32,
{
    keccak256(bytes)
}

} // verus!
