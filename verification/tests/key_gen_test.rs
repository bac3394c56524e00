use hkdf::Hkdf;
use sha2::Sha256;
use ed25519_dalek::SigningKey;
use syftbox_crypto_protocol::SyftRecoveryKey;
use x25519_dalek::{PublicKey as X25519PublicKey, StaticSecret};

#[test]
fn test_derive_keys_from_recovery_key() {
    let recovery_key = SyftRecoveryKey::generate();
    let private_keys = recovery_key
        .derive_keys()
        .expect("Key derivation should succeed");

    assert!(!private_keys.identity().is_empty());
    assert!(!private_keys.identity_dh().is_empty());
    assert!(!private_keys.signed_pre_key().is_empty());
}

#[test]
fn test_deterministic_key_derivation() {
    let recovery_key = SyftRecoveryKey::generate();

    let keys1 = recovery_key.derive_keys().expect("first derivation");
    let keys2 = recovery_key.derive_keys().expect("second derivation");

    assert_eq!(keys1.identity(), keys2.identity());
    assert_eq!(keys1.identity_dh(), keys2.identity_dh());
    assert_eq!(keys1.signed_pre_key(), keys2.signed_pre_key());
}

#[test]
fn test_different_recovery_keys_produce_different_keys() {
    let recovery_key1 = SyftRecoveryKey::generate();
    let recovery_key2 = SyftRecoveryKey::generate();

    let keys1 = recovery_key1.derive_keys().expect("first derivation");
    let keys2 = recovery_key2.derive_keys().expect("second derivation");

    assert_ne!(keys1.identity(), keys2.identity());
    assert_ne!(keys1.identity_dh(), keys2.identity_dh());
    assert_ne!(keys1.signed_pre_key(), keys2.signed_pre_key());
}

#[test]
fn test_recovery_key_hex_roundtrip_with_derived_keys() {
    let recovery_key = SyftRecoveryKey::generate();
    let original_keys = recovery_key.derive_keys().expect("original derivation");

    let hex = recovery_key.to_hex_string();
    let recovered_key = SyftRecoveryKey::from_hex_string(&hex).expect("parse hex");
    let recovered_keys = recovered_key.derive_keys().expect("recovered derivation");

    assert_eq!(original_keys.identity(), recovered_keys.identity());
    assert_eq!(original_keys.identity_dh(), recovered_keys.identity_dh());
    assert_eq!(original_keys.signed_pre_key(), recovered_keys.signed_pre_key());
}

#[test]
fn test_derived_keys_can_create_public_bundle() {
    let recovery_key = SyftRecoveryKey::generate();
    let private_keys = recovery_key
        .derive_keys()
        .expect("derivation should succeed");

    let public_bundle = private_keys
        .to_public_bundle()
        .expect("should create public bundle");

    assert!(public_bundle.verify_signatures());

    assert_eq!(
        &public_bundle.identity_signing_public_key,
        SigningKey::from_bytes(private_keys.identity()).verifying_key().as_bytes()
    );
    assert_eq!(
        &public_bundle.identity_dh_public_key,
        X25519PublicKey::from(&StaticSecret::from(*private_keys.identity_dh())).as_bytes()
    );
    assert_eq!(
        &public_bundle.signed_prekey_public_key,
        X25519PublicKey::from(&StaticSecret::from(*private_keys.signed_pre_key())).as_bytes()
    );
}

#[test]
fn derived_keys_are_hkdf_sha256_expansions() {
    let recovery_key = SyftRecoveryKey::generate();
    let keys = recovery_key.derive_keys().unwrap();
    let expand = |info: &[u8]| {
        let mut okm = [0u8; 32];
        Hkdf::<Sha256>::new(None, recovery_key.as_bytes()).expand(info, &mut okm).unwrap();
        okm
    };
    assert_eq!(keys.identity(), &expand(b"SyftBox_Identity_Signing_Key_v1"));
    assert_eq!(keys.identity_dh(), &expand(b"SyftBox_Identity_DH_Key_v1"));
    assert_eq!(keys.signed_pre_key(), &expand(b"SyftBox_Signed_Prekey_v1"));
    assert_ne!(keys.identity(), recovery_key.as_bytes());
}
