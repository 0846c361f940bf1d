//! SHA-256 applied twice, the hash of Bitcoin's transactions and headers.

use sha2::Digest;
use vstd::prelude::*;

verus! {

/// The SHA-256 digest of a message.
pub uninterp spec fn sha256_digest(message: Seq<u8>) -> Seq<u8>;

/// The SHA-256 digest of the SHA-256 digest of a message.
pub open spec fn double_sha256(message: Seq<u8>) -> Seq<u8> {
    sha256_digest(sha256_digest(message))
}

/// Calls `sha2::Sha256::digest`, whose output is 32 bytes that depend on the
/// message alone.
#[verifier::external_body]
fn sha256(message: &[u8]) -> (digest: Vec<u8>)
    ensures
        digest@ == sha256_digest(message@),
        digest@.len() == 32,
{
    sha2::Sha256::digest(message).to_vec()
}

/// Hashes `data` with SHA-256 and hashes the digest once more.
pub fn sha256d(data: &[u8]) -> (digest: Vec<u8>)
    ensures
        digest@ == double_sha256(data@),
        digest@.len() == 32,
{
    let first: Vec<u8> = sha256(data);
    sha256(first.as_slice())
}

/// The digest is that of the digest of the data.
pub proof fn law_data_is_hashed_twice(data: &[u8], digest: Vec<u8>)
    requires
        call_ensures(sha256d, (data,), digest),
    ensures
        digest@ == sha256_digest(sha256_digest(data@)),
        digest@.len() == 32,
{
}

} // verus!
