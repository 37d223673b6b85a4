//! Digests, signatures and randomness: every call into `sha2`, `ed25519-dalek`
//! and `rand`.
use rand::RngCore;
use sha2::Digest;
use vstd::prelude::*;

verus! {

/// The SHA-256 digest of a byte string.
pub uninterp spec fn sha256_of(data: Seq<u8>) -> Seq<u8>;

/// Hashes a byte string.
///
/// Calls `Sha256::digest` of `sha2`.
#[verifier::external_body]
pub(crate) fn sha256(data: &[u8]) -> (out: [u8; 32])
    ensures
        out@ == sha256_of(data@),
{
    sha2::Sha256::digest(data).into()
}

/// Whether `signature` is a strict Ed25519 signature of `message` under `key`.
pub uninterp spec fn signed_by(key: Seq<u8>, message: Seq<u8>, signature: Seq<u8>) -> bool;

/// Checks a signature.
///
/// Calls `VerifyingKey::from_bytes` and `VerifyingKey::verify_strict` of
/// `ed25519-dalek`. A key that is no curve point has signed nothing.
#[verifier::external_body]
pub(crate) fn verify_strict(key: &[u8; 32], message: &[u8], signature: &[u8; 64]) -> (ok: bool)
    ensures
        ok == signed_by(key@, message@, signature@),
{
    let signature = ed25519_dalek::Signature::from_bytes(signature);
    ed25519_dalek::VerifyingKey::from_bytes(key).is_ok_and(
        |key| key.verify_strict(message, &signature).is_ok(),
    )
}

/// Thirty-two random bytes.
///
/// Calls `OsRng::fill_bytes` of `rand`. Nothing is stated of the bytes.
#[verifier::external_body]
pub(crate) fn random_bytes() -> (out: [u8; 32]) {
    let mut out = [0u8; 32];
    rand::rngs::OsRng.fill_bytes(&mut out);
    out
}

} // verus!
