//! Content hashing of payloads.
use vstd::prelude::*;
use vstd::string::StringSliceAdditionalSpecFns;
use sha2::Digest;

verus! {

/// The SHA-256 digest of a byte sequence.
pub uninterp spec fn sha256_of(b: Seq<u8>) -> Seq<u8>;

/// Relies on `sha2::Sha256::digest`: the SHA-256 digest of the bytes, which is 32 bytes long.
#[verifier::external_body]
fn sha256(b: &[u8]) -> (r: Vec<u8>)
    ensures
        r@ == sha256_of(b@),
        r@.len() == 32,
{
    sha2::Sha256::digest(b).to_vec()
}

/// The SHA-256 digest of the UTF-8 bytes of `input`.
pub fn get_sha256_hash(input: &str) -> (r: Vec<u8>)
    ensures
        r@ == sha256_of(input.spec_bytes()),
        r@.len() == 32,
{
    sha256(input.as_bytes())
}

/// The content hash is deterministic: two texts with the same characters have
/// the same digest.
pub proof fn lemma_hash_deterministic(a: &str, b: &str)
    requires
        a@ == b@,
    ensures
        sha256_of(a.spec_bytes()) == sha256_of(b.spec_bytes()),
{
}

} // verus!
