use syftbox_crypto_protocol::SyftRecoveryKey;

#[test]
fn test_public_key_bundle_creation() {
    let keys = SyftRecoveryKey::generate().derive_keys().unwrap();
    let bundle = keys.to_public_bundle().unwrap();

    assert!(bundle.verify_signatures());
    assert_eq!(bundle.identity_fingerprint().len(), 64);
}

#[test]
fn test_public_key_bundle_detects_tampered_identity_dh_signature() {
    let keys = SyftRecoveryKey::generate().derive_keys().unwrap();
    let mut bundle = keys.to_public_bundle().unwrap();

    let mut sig = bundle.identity_dh_signature.to_vec();
    sig[0] ^= 0xFF;
    bundle.identity_dh_signature = sig;

    assert!(!bundle.verify_signatures());
}

#[test]
fn test_public_key_bundle_detects_tampered_signed_prekey_signature() {
    let keys = SyftRecoveryKey::generate().derive_keys().unwrap();
    let mut bundle = keys.to_public_bundle().unwrap();

    let mut sig = bundle.signed_prekey_signature.to_vec();
    sig[0] ^= 0xFF;
    bundle.signed_prekey_signature = sig;

    assert!(!bundle.verify_signatures());
}

#[test]
fn test_public_key_bundle_total_size() {
    let keys = SyftRecoveryKey::generate().derive_keys().unwrap();
    let bundle = keys.to_public_bundle().unwrap();

    let expected = 32  // Ed25519 identity public key
        + 32          // X25519 identity DH public key
        + 64          // identity DH signature
        + 32          // X25519 signed prekey public key
        + 64; // signed prekey signature

    assert_eq!(bundle.total_size(), expected);
}

#[test]
fn test_public_key_bundle_clone() {
    let keys = SyftRecoveryKey::generate().derive_keys().unwrap();
    let bundle = keys.to_public_bundle().unwrap();
    let cloned = bundle.clone();

    assert_eq!(bundle.identity_fingerprint(), cloned.identity_fingerprint());
    assert!(cloned.verify_signatures());
}

#[test]
fn bundle_with_short_signature_is_rejected() {
    let keys = SyftRecoveryKey::generate().derive_keys().unwrap();
    let mut bundle = keys.to_public_bundle().unwrap();
    bundle.signed_prekey_signature.truncate(63);
    assert!(!bundle.verify_signatures());
}
