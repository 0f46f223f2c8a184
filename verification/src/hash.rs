//! Digests, through `sha1`, `sha2` and `sha3`.
use vstd::prelude::*;

verus! {

/// The SHA-1 digest of bytes.
pub uninterp spec fn sha1_of(b: Seq<u8>) -> Seq<u8>;

/// The SHA-256 digest of bytes.
pub uninterp spec fn sha256_of(b: Seq<u8>) -> Seq<u8>;

/// The Keccak-256 digest of bytes.
pub uninterp spec fn keccak256_of(b: Seq<u8>) -> Seq<u8>;

/// `sha1::Sha1::digest`, a digest of 20 bytes.
#[verifier::external_body]
pub(crate) fn sha1(b: &[u8]) -> (r: Vec<u8>)
    ensures
        r@ == sha1_of(b@),
        r@.len() == 20,
{
    <sha1::Sha1 as sha1::Digest>::digest(b).to_vec()
}

/// `sha2::Sha256::digest`, a digest of 32 bytes.
#[verifier::external_body]
pub(crate) fn sha256(b: &[u8]) -> (r: Vec<u8>)
    ensures
        r@ == sha256_of(b@),
        r@.len() == 32,
{
    <sha2::Sha256 as sha2::Digest>::digest(b).to_vec()
}

/// `sha3::Keccak256::digest`, a digest of 32 bytes.
#[verifier::external_body]
pub(crate) fn keccak256(b: &[u8]) -> (r: Vec<u8>)
    ensures
        r@ == keccak256_of(b@),
        r@.len() == 32,
{
    <sha3::Keccak256 as sha3::Digest>::digest(b).to_vec()
}

} // verus!
