use base64::Engine;
use syftbox_crypto_protocol::error::KeyError;
use syftbox_crypto_protocol::x3dh;
use syftbox_crypto_protocol::SyftRecoveryKey;
use x25519_dalek::{PublicKey, StaticSecret};

#[test]
fn test_x3dh_round_trip() {
    // Alice and Bob generate their keys
    let alice_keys = SyftRecoveryKey::generate()
        .derive_keys()
        .expect("alice key derivation");
    let bob_keys = SyftRecoveryKey::generate()
        .derive_keys()
        .expect("bob key derivation");

    let alice_bundle = alice_keys.to_public_bundle().expect("alice bundle");
    let bob_bundle = bob_keys.to_public_bundle().expect("bob bundle");

    // Alice performs sender-side X3DH to Bob
    let (alice_material, wrapping_info) =
        x3dh::derive_sender_shared_material(&alice_keys, "bob@example.org", &bob_bundle)
            .expect("alice X3DH");

    // Bob performs recipient-side X3DH from Alice
    let bob_material =
        x3dh::derive_recipient_shared_material(&bob_keys, &alice_bundle, &wrapping_info)
            .expect("bob X3DH");

    // Both should derive the same shared material
    assert_eq!(&alice_material[..], &bob_material[..], "X3DH materials must match");

    // Material should be 96 bytes (3×32 DH)
    assert!(
        alice_material.len() == 96,
        "Expected 96 bytes, got {}",
        alice_material.len()
    );
}

#[test]
fn test_x3dh_rejects_invalid_bundle() {
    let alice_keys = SyftRecoveryKey::generate()
        .derive_keys()
        .expect("alice key derivation");

    // Create a bundle from different keys (Charlie)
    let charlie_keys = SyftRecoveryKey::generate()
        .derive_keys()
        .expect("charlie key derivation");
    let mut bad_bundle = charlie_keys.to_public_bundle().expect("charlie bundle");

    // Replace identity key with Alice's, but keep Charlie's signatures
    // This creates an invalid bundle (signatures won't match the identity key)
    let alice_public = alice_keys.to_public_bundle().expect("alice bundle");
    bad_bundle.identity_signing_public_key = alice_public.identity_signing_public_key;

    // Attempting X3DH with invalid bundle should fail
    let result = x3dh::derive_sender_shared_material(&alice_keys, "bob@example.org", &bad_bundle);

    assert!(
        result.is_err(),
        "X3DH should reject bundle with invalid signature"
    );
}

#[test]
fn sender_wrapping_names_recipient_and_ephemeral_key() {
    let alice_keys = SyftRecoveryKey::generate().derive_keys().unwrap();
    let bob_keys = SyftRecoveryKey::generate().derive_keys().unwrap();
    let bob_bundle = bob_keys.to_public_bundle().unwrap();
    let ephemeral = [9u8; 32];
    let (material, wrapping) = x3dh::derive_sender_shared_material_with_ephemeral(
        &alice_keys,
        "bob@example.org",
        &bob_bundle,
        ephemeral,
    )
    .unwrap();
    assert_eq!(material.len(), 96);
    assert_eq!(wrapping.recipient_identity.as_deref(), Some("bob@example.org"));
    assert_eq!(wrapping.device_label.as_deref(), Some("default"));
    assert_eq!(wrapping.wrap_ciphertext, "");
    let expected_public =
        PublicKey::from(&StaticSecret::from(ephemeral));
    let decoded = base64::engine::general_purpose::URL_SAFE_NO_PAD
        .decode(&wrapping.wrap_ephemeral_public)
        .unwrap();
    assert_eq!(decoded, expected_public.as_bytes().to_vec());
    // Same ephemeral, same material.
    let (again, _) = x3dh::derive_sender_shared_material_with_ephemeral(
        &alice_keys,
        "bob@example.org",
        &bob_bundle,
        ephemeral,
    )
    .unwrap();
    assert_eq!(material, again);
}

#[test]
fn recipient_rejects_malformed_ephemeral_key() {
    let alice_keys = SyftRecoveryKey::generate().derive_keys().unwrap();
    let bob_keys = SyftRecoveryKey::generate().derive_keys().unwrap();
    let alice_bundle = alice_keys.to_public_bundle().unwrap();
    let bob_bundle = bob_keys.to_public_bundle().unwrap();
    let (_, mut wrapping) =
        x3dh::derive_sender_shared_material(&alice_keys, "bob@example.org", &bob_bundle).unwrap();

    wrapping.wrap_ephemeral_public = "not base64 !!".to_string();
    assert_eq!(
        x3dh::derive_recipient_shared_material(&bob_keys, &alice_bundle, &wrapping).unwrap_err(),
        KeyError::InvalidFormat
    );

    wrapping.wrap_ephemeral_public = base64::engine::general_purpose::URL_SAFE_NO_PAD.encode([1u8; 16]);
    assert_eq!(
        x3dh::derive_recipient_shared_material(&bob_keys, &alice_bundle, &wrapping).unwrap_err(),
        KeyError::InvalidFormat
    );
}

#[test]
fn recipient_rejects_tampered_sender_bundle() {
    let alice_keys = SyftRecoveryKey::generate().derive_keys().unwrap();
    let bob_keys = SyftRecoveryKey::generate().derive_keys().unwrap();
    let mut alice_bundle = alice_keys.to_public_bundle().unwrap();
    let bob_bundle = bob_keys.to_public_bundle().unwrap();
    let (_, wrapping) =
        x3dh::derive_sender_shared_material(&alice_keys, "bob@example.org", &bob_bundle).unwrap();
    alice_bundle.identity_dh_signature[0] ^= 1;
    assert_eq!(
        x3dh::derive_recipient_shared_material(&bob_keys, &alice_bundle, &wrapping).unwrap_err(),
        KeyError::InvalidSignature
    );
}

#[test]
fn all_zero_detection() {
    assert!(x3dh::is_all_zero(&[0u8; 32]));
    assert!(x3dh::is_all_zero(&[]));
    let mut bytes = [0u8; 32];
    bytes[31] = 1;
    assert!(!x3dh::is_all_zero(&bytes));
}

#[test]
fn sender_material_is_three_diffie_hellman_outputs() {
    let alice_keys = SyftRecoveryKey::generate().derive_keys().unwrap();
    let bob_keys = SyftRecoveryKey::generate().derive_keys().unwrap();
    let bob_bundle = bob_keys.to_public_bundle().unwrap();
    let ephemeral = [5u8; 32];
    let (material, _) = x3dh::derive_sender_shared_material_with_ephemeral(
        &alice_keys,
        "bob@example.org",
        &bob_bundle,
        ephemeral,
    )
    .unwrap();
    let bob_ik = PublicKey::from(bob_bundle.identity_dh_public_key);
    let bob_spk = PublicKey::from(bob_bundle.signed_prekey_public_key);
    let mut expected = Vec::new();
    expected.extend_from_slice(StaticSecret::from(*alice_keys.identity_dh()).diffie_hellman(&bob_spk).as_bytes());
    expected.extend_from_slice(StaticSecret::from(ephemeral).diffie_hellman(&bob_ik).as_bytes());
    expected.extend_from_slice(StaticSecret::from(ephemeral).diffie_hellman(&bob_spk).as_bytes());
    assert_eq!(material, expected);
}
