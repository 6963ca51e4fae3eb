use sha2::Digest;
use vstd::prelude::*;

verus! {

/// The SHA-256 digest of a byte sequence.  The function is named here and
/// never defined: every property proved of commitments holds for whatever
/// digest sha2 computes, and only equal inputs are known to collide.
pub uninterp spec fn sha256_of(data: Seq<u8>) -> Seq<u8>;

/// Relies on sha2's `Sha256` (through `Digest::new`, `update` and
/// `finalize`): the digest is a function of the input bytes alone and is
/// always 32 bytes long.
#[verifier::external_body]
pub(crate) fn sha256_hash(data: &[u8]) -> (r: Vec<u8>)
    ensures
        r@ == sha256_of(data@),
        r@.len() == 32,
{
    let mut hasher = sha2::Sha256::new();
    hasher.update(data);
    hasher.finalize().to_vec()
}

/// Relies on `getrandom::getrandom` to fill 32 bytes from the operating
/// system's entropy source.  Of a random value only the length is promised.
/// Aborts only if that source itself fails.
#[verifier::external_body]
pub(crate) fn generate_nonce() -> (r: Vec<u8>)
    ensures
        r@.len() == 32,
{
    let mut nonce = [0u8; 32];
    getrandom::getrandom(&mut nonce).expect("Failed to generate random nonce");
    nonce.to_vec()
}

/// Relies on uuid's `Uuid::new_v4` and its hyphenated `Display` form: a
/// random version-4 identifier rendered as 36 characters.  Nothing beyond
/// the length is promised of a random identifier.
#[verifier::external_body]
pub(crate) fn fresh_batch_id() -> (r: String)
    ensures
        r@.len() == 36,
{
    uuid::Uuid::new_v4().to_string()
}

} // verus!
