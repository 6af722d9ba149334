//! Trusted boundary around the two outside primitives the decision core
//! consumes: base58 text encoding of hash binaries and the SHA-256 digest.
//!
//! The results of all three calls are functions of their arguments alone, so
//! each is given an uninterpreted name that the verified contracts speak of.

use sha2::Digest;
use vstd::prelude::*;

verus! {

/// The base58 text (Bitcoin alphabet) that encodes a byte string.
pub uninterp spec fn b58_of(bytes: Seq<u8>) -> Seq<char>;

/// The byte string that a base58 text decodes to, or `None` where the text
/// holds a character outside the alphabet.
pub uninterp spec fn b58_bytes_of(text: Seq<char>) -> Option<Seq<u8>>;

/// The SHA-256 digest of a byte string.
pub uninterp spec fn sha256_of(data: Seq<u8>) -> Seq<u8>;

/// Relies on bs58::encode (Bitcoin alphabet): base58 text of a byte string,
/// a function of the bytes alone.
#[verifier::external_body]
pub(crate) fn b58_encode(bytes: &[u8]) -> (r: String)
    ensures
        r@ == b58_of(bytes@),
{
    bs58::encode(bytes).into_string()
}

/// Relies on bs58::decode (Bitcoin alphabet): recovers the bytes of a base58
/// text, failing exactly on text outside the alphabet; a function of the text
/// alone.
#[verifier::external_body]
pub(crate) fn b58_decode(text: &str) -> (r: Option<Vec<u8>>)
    ensures
        match r {
            Some(bytes) => b58_bytes_of(text@) == Some(bytes@),
            None => b58_bytes_of(text@) is None,
        },
{
    bs58::decode(text).into_vec().ok()
}

/// Relies on sha2::Sha256 (the `Digest::digest` one-shot): the SHA-256 digest
/// of a byte string, a function of the bytes alone.
#[verifier::external_body]
pub(crate) fn sha256(data: &[u8]) -> (r: Vec<u8>)
    ensures
        r@ == sha256_of(data@),
{
    sha2::Sha256::digest(data).to_vec()
}

} // verus!
