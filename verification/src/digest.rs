//! SHA-256, taken from the `sha2` crate.

use sha2::{Digest, Sha256};
use vstd::prelude::*;

verus! {

/// The SHA-256 digest of a byte string, as `sha2` computes it.
pub uninterp spec fn sha256_digest(data: Seq<u8>) -> Seq<u8>;

/// Calls `sha2::Sha256::digest` on `data` and copies the output array into a
/// vector. Trusted: the result is the digest of exactly the bytes passed in,
/// and depends on nothing else.
#[verifier::external_body]
pub(crate) fn sha256(data: &Vec<u8>) -> (out: Vec<u8>)
    ensures
        out@ == sha256_digest(data@),
{
    Sha256::digest(data.as_slice()).to_vec()
}

} // verus!
