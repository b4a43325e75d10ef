//! Ed25519, as the session cookies use it.
//!
//! A key is held as its 32-byte seed, which is what `SigningKey::from_bytes`
//! takes and `SigningKey::to_bytes` gives back; the signing key itself is
//! rebuilt from it for each operation.

use ed25519_dalek::{Signer, Verifier};
use vstd::prelude::*;

verus! {

/// The public key belonging to a seed (`SigningKey::verifying_key`).
pub uninterp spec fn ed25519_public(seed: Seq<u8>) -> Seq<u8>;

/// The signature a seed makes over a message (`Signer::sign`).
pub uninterp spec fn ed25519_signature(seed: Seq<u8>, message: Seq<u8>) -> Seq<u8>;

/// Whether a public key accepts a signature over a message (`Verifier::verify`
/// succeeding).
pub uninterp spec fn ed25519_accepts(public: Seq<u8>, message: Seq<u8>, signature: Seq<u8>) -> bool;

/// The public half of a seed, as bytes.
///
/// Wraps `SigningKey::verifying_key` and `VerifyingKey::to_bytes`. Claimed:
/// the bytes are `ed25519_public` of the seed.
#[verifier::external_body]
pub(crate) fn public_key(seed: &[u8; 32]) -> (public: [u8; 32])
    ensures
        public@ == ed25519_public(seed@),
{
    ed25519_dalek::SigningKey::from_bytes(seed).verifying_key().to_bytes()
}

/// Sign a message.
///
/// Wraps `Signer::sign` on `ed25519_dalek::SigningKey`. Claimed: the 64 bytes
/// are `ed25519_signature` of the seed and message, and - the defining property
/// of a signature scheme - the seed's own public key accepts them.
#[verifier::external_body]
pub(crate) fn sign(seed: &[u8; 32], message: &[u8]) -> (signature: Vec<u8>)
    ensures
        signature@ == ed25519_signature(seed@, message@),
        signature@.len() == 64,
        ed25519_accepts(ed25519_public(seed@), message@, signature@),
{
    ed25519_dalek::SigningKey::from_bytes(seed).sign(message).to_bytes().to_vec()
}

/// Check a signature against the public half of a seed.
///
/// Wraps `Verifier::verify` on `ed25519_dalek::VerifyingKey`, with the 64 bytes
/// read by `Signature::from_bytes`. Claimed: the answer is `ed25519_accepts`
/// of the seed's public key, the message and the signature.
#[verifier::external_body]
pub(crate) fn verify(seed: &[u8; 32], message: &[u8], signature: &[u8]) -> (ok: bool)
    requires
        signature@.len() == 64,
    ensures
        ok == ed25519_accepts(ed25519_public(seed@), message@, signature@),
{
    let bytes: [u8; 64] = signature.try_into().unwrap_or([0u8; 64]);
    ed25519_dalek::SigningKey::from_bytes(seed).verifying_key().verify(
        message,
        &ed25519_dalek::Signature::from_bytes(&bytes),
    ).is_ok()
}

} // verus!
