//! Content digest used to deduplicate link records by their target fields.

use vstd::prelude::*;
use sha2::Digest;

verus! {

/// The lowercase hexadecimal SHA-256 digest of a string's characters.
/// Left uninterpreted: it names what the digest call returns, a function
/// of the input characters alone.
pub uninterp spec fn sha256_hex_of(s: Seq<char>) -> Seq<char>;

/// Relies on sha2's `Sha256` through the `Digest` trait: the digest is a
/// function of the input bytes alone, and `{:x}` formats its 32 bytes as
/// 64 lowercase hexadecimal digits.
#[verifier::external_body]
pub(crate) fn sha256_hex(s: &str) -> (r: String)
    ensures
        r@ == sha256_hex_of(s@),
        r@.len() == 64,
{
    let mut hasher = sha2::Sha256::new();
    hasher.update(s.as_bytes());
    format!("{:x}", hasher.finalize())
}

} // verus!
