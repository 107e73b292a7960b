//! SHA-256, the one hash primitive the construction relies on.

use vstd::prelude::*;

verus! {

/// The SHA-256 digest of a byte string (FIPS 180-4), as computed by the
/// `sha2` crate.
pub uninterp spec fn sha256_spec(data: Seq<u8>) -> Seq<u8>;

/// Hashes `data` with `sha2::Sha256`.
///
/// Trusted: the contract states that the 32 returned bytes are the SHA-256
/// digest of exactly the bytes passed in; the digest itself is not modelled.
#[verifier::external_body]
pub fn sha256(data: &[u8]) -> (out: [u8; 32])
    ensures
        out@ == sha256_spec(data@),
{
    <sha2::Sha256 as sha2::Digest>::digest(data).into()
}

} // verus!
