use syftbox_crypto_protocol::error::SerializationErrorKind;
use syftbox_crypto_protocol::json::JsonValue;
use syftbox_crypto_protocol::serialization::{
    deserialize_from_did_document, deserialize_private_keys, serialize_private_keys,
    serialize_to_did_document,
};
use syftbox_crypto_protocol::SyftRecoveryKey;

const DID_ID: &str = "did:web:example.com:alice%40example.com";

fn field<'a>(v: &'a JsonValue, key: &str) -> &'a JsonValue {
    v.get(key).unwrap_or_else(|| panic!("missing field {key}"))
}

fn is_array(v: &JsonValue) -> bool {
    matches!(v, JsonValue::Array(_))
}

#[test]
fn test_did_document_roundtrip() {
    let recovery_key = SyftRecoveryKey::generate();
    let private_keys = recovery_key.derive_keys().unwrap();
    let original_bundle = private_keys.to_public_bundle().unwrap();

    let did_doc = serialize_to_did_document(&original_bundle, DID_ID).expect("serialize");
    let restored_bundle = deserialize_from_did_document(&did_doc).expect("deserialize");

    assert_eq!(
        original_bundle.identity_signing_public_key,
        restored_bundle.identity_signing_public_key
    );
    assert_eq!(original_bundle.identity_dh_public_key, restored_bundle.identity_dh_public_key);
    assert_eq!(
        original_bundle.signed_prekey_public_key,
        restored_bundle.signed_prekey_public_key
    );
}

#[test]
fn test_private_keys_roundtrip() {
    let recovery_key = SyftRecoveryKey::generate();
    let original_keys = recovery_key.derive_keys().unwrap();

    let jwks = serialize_private_keys(&original_keys).expect("serialize");
    let restored_keys = deserialize_private_keys(&jwks).expect("deserialize");

    assert_eq!(original_keys.identity(), restored_keys.identity());
    assert_eq!(original_keys.identity_dh(), restored_keys.identity_dh());
    assert_eq!(original_keys.signed_pre_key(), restored_keys.signed_pre_key());
}

#[test]
fn test_did_document_format() {
    let recovery_key = SyftRecoveryKey::generate();
    let private_keys = recovery_key.derive_keys().unwrap();
    let bundle = private_keys.to_public_bundle().unwrap();

    let did_doc = serialize_to_did_document(&bundle, DID_ID).unwrap();

    assert!(is_array(field(&did_doc, "@context")));
    assert!(field(&did_doc, "id").is_text(DID_ID));
    assert!(is_array(field(&did_doc, "verificationMethod")));
    assert!(is_array(field(&did_doc, "keyAgreement")));

    let vm = &field(&did_doc, "verificationMethod").as_array().unwrap()[0];
    assert!(field(vm, "type").is_text("Ed25519VerificationKey2020"));
    assert!(field(field(vm, "publicKeyJwk"), "kty").is_text("OKP"));
    assert!(field(field(vm, "publicKeyJwk"), "crv").is_text("Ed25519"));

    let ka = field(&did_doc, "keyAgreement").as_array().unwrap();
    assert_eq!(ka.len(), 2);
}

#[test]
fn did_document_without_methods_is_refused() {
    let empty = JsonValue::Object(vec![("id".to_string(), JsonValue::String(DID_ID.to_string()))]);
    assert!(deserialize_from_did_document(&empty).is_err());
}

fn entries_of(v: JsonValue) -> Vec<(String, JsonValue)> {
    match v {
        JsonValue::Object(entries) => entries,
        other => panic!("object expected, got {other:?}"),
    }
}

#[test]
fn private_keys_document_errors_name_the_missing_key() {
    let keys = SyftRecoveryKey::generate().derive_keys().unwrap();
    let without = |name: &str| {
        let entries = entries_of(serialize_private_keys(&keys).unwrap());
        JsonValue::Object(entries.into_iter().filter(|(k, _)| k != name).collect())
    };
    assert_eq!(
        deserialize_private_keys(&without("identity_key")).err().unwrap().kind(),
        SerializationErrorKind::MissingIdentityKey
    );
    assert_eq!(
        deserialize_private_keys(&without("identity_dh")).err().unwrap().kind(),
        SerializationErrorKind::MissingIdentityDhKey
    );
    assert_eq!(
        deserialize_private_keys(&without("signed_prekey")).err().unwrap().kind(),
        SerializationErrorKind::MissingSignedPrekey
    );
}

#[test]
fn private_keys_document_with_mismatched_public_key_is_refused() {
    let keys = SyftRecoveryKey::generate().derive_keys().unwrap();
    let other = SyftRecoveryKey::generate().derive_keys().unwrap();
    let mut entries = entries_of(serialize_private_keys(&keys).unwrap());
    let other_entries = entries_of(serialize_private_keys(&other).unwrap());
    // Keep this key set's signed prekey secret, but pair it with another
    // key set's signed prekey public key.
    let i = entries.iter().position(|(k, _)| k == "signed_prekey").unwrap();
    let (_, ours) = entries.remove(i);
    let our_d = entries_of(ours).into_iter().find(|(k, _)| k == "d").unwrap().1;
    let theirs = other_entries.into_iter().find(|(k, _)| k == "signed_prekey").unwrap().1;
    let mixed: Vec<(String, JsonValue)> = entries_of(theirs)
        .into_iter()
        .map(|(k, v)| if k == "d" { (k, JsonValue::String(match &our_d { JsonValue::String(s) => s.to_string(), _ => panic!() })) } else { (k, v) })
        .collect();
    entries.push(("signed_prekey".to_string(), JsonValue::Object(mixed)));
    assert_eq!(
        deserialize_private_keys(&JsonValue::Object(entries)).err().unwrap().kind(),
        SerializationErrorKind::InvalidSignature
    );
}
