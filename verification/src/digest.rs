//! SHA-256, and the hash text that transactions and blocks carry.

use vstd::prelude::*;
use vstd::utf8::encode_utf8;
use sha2::{Digest, Sha256};
use crate::text::{hex_upper, to_hex_upper};

verus! {

/// The SHA-256 digest of `data`.
pub uninterp spec fn sha256_digest(data: Seq<u8>) -> Seq<u8>;

/// `Sha256::digest` of the `sha2` crate: the SHA-256 digest of `data`, as
/// bytes. Nothing is proved of the digest; it has a name.
#[verifier::external_body]
fn sha256(data: &[u8]) -> (digest: Vec<u8>)
    ensures
        digest@ == sha256_digest(data@),
{
    Sha256::digest(data).to_vec()
}

/// The hash of a text: the SHA-256 digest of its UTF-8 bytes, in upper-case
/// hexadecimal.
pub open spec fn hash_text(preimage: Seq<char>) -> Seq<char> {
    hex_upper(sha256_digest(encode_utf8(preimage)))
}

/// Hashes `preimage`.
pub fn hash_of_text(preimage: &str) -> (hash: String)
    ensures
        hash@ == hash_text(preimage@),
{
    let digest = sha256(preimage.as_bytes());
    to_hex_upper(digest.as_slice())
}

} // verus!
