//! The cryptographic primitives the protocol is built on: Ed25519 signing,
//! X25519 Diffie-Hellman, HKDF-SHA256, BIP39 phrases and the system RNG.
//!
//! Keys are carried as their canonical byte encodings; each function here
//! makes one call into the primitive's crate.

use ed25519_dalek::Signer;
use crate::text::{is_single_spaced_lowercase, ws_words};
use rand::RngCore;
use vstd::prelude::*;

verus! {

// ----------------------------------------------------------------------
// Ed25519
// ----------------------------------------------------------------------

/// The compressed Ed25519 verifying key of the signing key with this seed.
pub uninterp spec fn spec_ed25519_public(seed: Seq<u8>) -> Seq<u8>;

/// The Ed25519 signature by the signing key with this seed over `msg`.
pub uninterp spec fn spec_ed25519_sign(seed: Seq<u8>, msg: Seq<u8>) -> Seq<u8>;

/// Whether these 32 bytes decompress to an Ed25519 verifying key.
pub uninterp spec fn spec_ed25519_key_valid(public: Seq<u8>) -> bool;

/// Whether `sig` strictly verifies over `msg` under the verifying key `public`.
pub uninterp spec fn spec_ed25519_verify_strict(public: Seq<u8>, msg: Seq<u8>, sig: Seq<u8>) -> bool;

/// `SigningKey::from_bytes(seed).verifying_key()`: the verifying key of a
/// seed, which is always a valid key encoding.
#[verifier::external_body]
pub(crate) fn ed25519_public_key(seed: &[u8; 32]) -> (public: [u8; 32])
    ensures
        public@ == spec_ed25519_public(seed@),
        spec_ed25519_key_valid(public@),
{
    ed25519_dalek::SigningKey::from_bytes(seed).verifying_key().to_bytes()
}

/// `SigningKey::sign`: the (deterministic) signature over `msg`, which
/// strictly verifies under the seed's verifying key.
#[verifier::external_body]
pub(crate) fn ed25519_sign(seed: &[u8; 32], msg: &[u8]) -> (sig: [u8; 64])
    ensures
        sig@ == spec_ed25519_sign(seed@, msg@),
        spec_ed25519_verify_strict(spec_ed25519_public(seed@), msg@, sig@),
{
    ed25519_dalek::SigningKey::from_bytes(seed).sign(msg).to_bytes()
}

/// `VerifyingKey::from_bytes(..).is_ok()`.
#[verifier::external_body]
pub(crate) fn ed25519_key_is_valid(public: &[u8; 32]) -> (valid: bool)
    ensures
        valid == spec_ed25519_key_valid(public@),
{
    ed25519_dalek::VerifyingKey::from_bytes(public).is_ok()
}

/// `VerifyingKey::verify_strict` on a valid key encoding.
#[verifier::external_body]
pub(crate) fn ed25519_verify_strict(public: &[u8; 32], msg: &[u8], sig: &[u8; 64]) -> (ok: bool)
    requires
        spec_ed25519_key_valid(public@),
    ensures
        ok == spec_ed25519_verify_strict(public@, msg@, sig@),
{
    match ed25519_dalek::VerifyingKey::from_bytes(public) {
        Ok(key) => key.verify_strict(msg, &ed25519_dalek::Signature::from_bytes(sig)).is_ok(),
        Err(_) => false,
    }
}

// ----------------------------------------------------------------------
// X25519
// ----------------------------------------------------------------------

/// The X25519 public key of the static secret with these bytes.
pub uninterp spec fn spec_x25519_public(secret: Seq<u8>) -> Seq<u8>;

/// The X25519 shared secret of `secret` with the public key `public`.
pub uninterp spec fn spec_x25519_dh(secret: Seq<u8>, public: Seq<u8>) -> Seq<u8>;

/// `PublicKey::from(&StaticSecret::from(secret))`.
#[verifier::external_body]
pub(crate) fn x25519_public_key(secret: &[u8; 32]) -> (public: [u8; 32])
    ensures
        public@ == spec_x25519_public(secret@),
{
    x25519_dalek::PublicKey::from(&x25519_dalek::StaticSecret::from(*secret)).to_bytes()
}

/// `StaticSecret::diffie_hellman`: the shared secret, which both sides of
/// the exchange compute alike.
#[verifier::external_body]
pub(crate) fn x25519_diffie_hellman(secret: &[u8; 32], public: &[u8; 32]) -> (shared: [u8; 32])
    ensures
        shared@ == spec_x25519_dh(secret@, public@),
        forall|other: Seq<u8>|
            other.len() == 32 && public@ == #[trigger] spec_x25519_public(other) ==> shared@
                == spec_x25519_dh(other, spec_x25519_public(secret@)),
{
    x25519_dalek::StaticSecret::from(*secret).diffie_hellman(
        &x25519_dalek::PublicKey::from(*public),
    ).to_bytes()
}

// ----------------------------------------------------------------------
// HKDF-SHA256
// ----------------------------------------------------------------------

/// HKDF-SHA256 (no salt) over `ikm`, expanded with `info` to 32 bytes.
pub uninterp spec fn spec_hkdf_sha256_32(ikm: Seq<u8>, info: Seq<u8>) -> Seq<u8>;

/// `Hkdf::<Sha256>::new(None, ikm).expand(info, ..)` into 32 bytes; the
/// expansion fails only for outputs longer than 255 blocks.
#[verifier::external_body]
pub(crate) fn hkdf_sha256_expand32(ikm: &[u8; 32], info: &[u8]) -> (okm: Result<[u8; 32], ()>)
    ensures
        okm is Ok,
        okm is Ok ==> okm->Ok_0@ == spec_hkdf_sha256_32(ikm@, info@),
{
    let mut okm = [0u8; 32];
    match hkdf::Hkdf::<sha2::Sha256>::new(None, ikm).expand(info, &mut okm) {
        Ok(()) => Ok(okm),
        Err(_) => Err(()),
    }
}

// ----------------------------------------------------------------------
// Randomness
// ----------------------------------------------------------------------

/// 32 bytes from the thread-local CSPRNG (`rand::rng().fill_bytes`).
/// Nothing is promised of the bytes.
#[verifier::external_body]
pub(crate) fn random_bytes_32() -> [u8; 32] {
    let mut bytes = [0u8; 32];
    rand::rng().fill_bytes(&mut bytes);
    bytes
}

// ----------------------------------------------------------------------
// BIP39 (English word list)
// ----------------------------------------------------------------------

/// The English BIP39 phrase (words joined by single spaces) of the entropy.
pub uninterp spec fn spec_bip39_phrase(entropy: Seq<u8>) -> Seq<char>;

/// The entropy of an English BIP39 phrase (after the crate's NFKD
/// normalisation), or `None` when the phrase does not parse.
pub uninterp spec fn spec_bip39_entropy(phrase: Seq<char>) -> Option<Seq<u8>>;

/// `Mnemonic::from_entropy_in(English, ..)` rendered with `to_string`.
/// 32 bytes of entropy always make a 24-word phrase; it is made of the
/// word list's lowercase ASCII words, and parses back to the entropy.
#[verifier::external_body]
pub(crate) fn bip39_phrase(entropy: &[u8; 32]) -> (phrase: Result<String, ()>)
    ensures
        phrase is Ok,
        phrase is Ok ==> phrase->Ok_0@ == spec_bip39_phrase(entropy@),
        phrase is Ok ==> is_single_spaced_lowercase(phrase->Ok_0@),
        phrase is Ok ==> ws_words(phrase->Ok_0@).len() == 24,
        phrase is Ok ==> spec_bip39_entropy(phrase->Ok_0@) == Some(entropy@),
{
    match bip39::Mnemonic::from_entropy_in(bip39::Language::English, entropy) {
        Ok(m) => Ok(m.to_string()),
        Err(_) => Err(()),
    }
}

/// `Mnemonic::parse_in(English, phrase)` followed by `to_entropy`, or the
/// parse error's message.
#[verifier::external_body]
pub(crate) fn bip39_entropy(phrase: &str) -> (entropy: Result<Vec<u8>, String>)
    ensures
        entropy is Ok <==> spec_bip39_entropy(phrase@) is Some,
        entropy matches Ok(e) ==> spec_bip39_entropy(phrase@) == Some(e@),
{
    match bip39::Mnemonic::parse_in(bip39::Language::English, phrase) {
        Ok(m) => Ok(m.to_entropy()),
        Err(e) => Err(e.to_string()),
    }
}

} // verus!
