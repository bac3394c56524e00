//! Serialization of keys as JSON documents.
//!
//! - DID document (public keys): the Ed25519 identity key under
//!   `verificationMethod`, the X25519 identity-DH key and signed prekey, each
//!   with the identity's signature, under `keyAgreement`. Keys use JWK
//!   encoding with base64url (no padding).
//! - JWKS-like document (private keys): `identity_key`, `identity_dh` and
//!   `signed_prekey`, each with its public `x` and private `d`.

use crate::crypto::{
    ed25519_key_is_valid, ed25519_public_key, spec_ed25519_key_valid, spec_ed25519_public,
    spec_x25519_public, x25519_public_key,
};
use crate::encoding::{base64url_decode, base64url_encode, spec_base64url_decode, spec_base64url_encode};
use crate::error::{SerializationError, SerializationErrorKind};
use crate::json::{
    entries_get, field_of, field_text, json_array, json_get, json_index, json_str, json_view,
    lemma_array_view, lemma_entries_get_at, lemma_object_view, JsonSpec, JsonValue,
};
use crate::keys::{
    spec_bundle_signatures_valid, PrivateKeysView, PublicBundleView, SyftPrivateKeys,
    SyftPublicKeyBundle,
};
use vstd::prelude::*;

verus! {

// ----------------------------------------------------------------------
// Building JSON values
// ----------------------------------------------------------------------

/// A string value.
fn text(s: &str) -> (v: JsonValue)
    ensures
        v@ == JsonSpec::Str(s@),
{
    JsonValue::String(s.to_owned())
}

/// A string value holding `s`.
fn text_of(s: String) -> (v: JsonValue)
    ensures
        v@ == JsonSpec::Str(s@),
{
    JsonValue::String(s)
}

/// `prefix` followed by `suffix`.
fn joined(prefix: &str, suffix: &str) -> (s: String)
    ensures
        s@ == prefix@ + suffix@,
{
    let mut s = prefix.to_owned();
    s.append(suffix);
    s
}

/// An object of the given entries.
fn object(entries: Vec<(String, JsonValue)>) -> (v: JsonValue)
    ensures
        v@ matches JsonSpec::Object(es) && es.len() == entries@.len() && forall|i: int|
            0 <= i < entries@.len() ==> #[trigger] es[i] == (entries@[i].0@, entries@[i].1@),
{
    proof {
        lemma_object_view(entries);
    }
    JsonValue::Object(entries)
}

/// An array of the given items.
fn array(items: Vec<JsonValue>) -> (v: JsonValue)
    ensures
        v@ matches JsonSpec::Array(xs) && xs.len() == items@.len() && forall|i: int|
            0 <= i < items@.len() ==> #[trigger] xs[i] == items@[i]@,
{
    proof {
        lemma_array_view(items);
    }
    JsonValue::Array(items)
}

/// A `(key, value)` entry.
fn entry(key: &str, value: JsonValue) -> (e: (String, JsonValue))
    ensures
        e.0@ == key@,
        e.1 == value,
{
    (key.to_owned(), value)
}

// ----------------------------------------------------------------------
// DID document
// ----------------------------------------------------------------------

/// A key-agreement method entry of the DID document.
pub open spec fn spec_agreement_method(
    did: Seq<char>,
    kid: Seq<char>,
    key: Seq<u8>,
    signature: Seq<u8>,
) -> JsonSpec {
    JsonSpec::Object(
        seq![
            ("id"@, JsonSpec::Str(did + "#"@ + kid)),
            ("type"@, JsonSpec::Str("X25519KeyAgreementKey2020"@)),
            ("controller"@, JsonSpec::Str(did)),
            (
                "publicKeyJwk"@,
                JsonSpec::Object(
                    seq![
                        ("kty"@, JsonSpec::Str("OKP"@)),
                        ("crv"@, JsonSpec::Str("X25519"@)),
                        ("x"@, JsonSpec::Str(spec_base64url_encode(key))),
                        ("kid"@, JsonSpec::Str(kid)),
                        ("use"@, JsonSpec::Str("enc"@)),
                        ("signature"@, JsonSpec::Str(spec_base64url_encode(signature))),
                    ],
                ),
            ),
        ],
    )
}

/// The DID document of a bundle under the identifier `did`.
pub open spec fn spec_did_document(bundle: PublicBundleView, did: Seq<char>) -> JsonSpec {
    JsonSpec::Object(
        seq![
            (
                "@context"@,
                JsonSpec::Array(
                    seq![
                        JsonSpec::Str("https://www.w3.org/ns/did/v1"@),
                        JsonSpec::Str("https://w3id.org/security/suites/ed25519-2020/v1"@),
                        JsonSpec::Str("https://w3id.org/security/suites/x25519-2020/v1"@),
                    ],
                ),
            ),
            ("id"@, JsonSpec::Str(did)),
            (
                "verificationMethod"@,
                JsonSpec::Array(
                    seq![
                        JsonSpec::Object(
                            seq![
                                ("id"@, JsonSpec::Str(did + "#identity-key"@)),
                                ("type"@, JsonSpec::Str("Ed25519VerificationKey2020"@)),
                                ("controller"@, JsonSpec::Str(did)),
                                (
                                    "publicKeyJwk"@,
                                    JsonSpec::Object(
                                        seq![
                                            ("kty"@, JsonSpec::Str("OKP"@)),
                                            ("crv"@, JsonSpec::Str("Ed25519"@)),
                                            (
                                                "x"@,
                                                JsonSpec::Str(
                                                    spec_base64url_encode(
                                                        bundle.identity_signing_public_key,
                                                    ),
                                                ),
                                            ),
                                            ("kid"@, JsonSpec::Str("identity-key"@)),
                                            ("use"@, JsonSpec::Str("sig"@)),
                                        ],
                                    ),
                                ),
                            ],
                        ),
                    ],
                ),
            ),
            (
                "keyAgreement"@,
                JsonSpec::Array(
                    seq![
                        spec_agreement_method(
                            did,
                            "identity-dh"@,
                            bundle.identity_dh_public_key,
                            bundle.identity_dh_signature,
                        ),
                        spec_agreement_method(
                            did,
                            "signed-prekey"@,
                            bundle.signed_prekey_public_key,
                            bundle.signed_prekey_signature,
                        ),
                    ],
                ),
            ),
        ],
    )
}

/// The first method whose `type` is `t`.
pub open spec fn find_by_type(items: Seq<JsonSpec>, t: Seq<char>) -> Option<JsonSpec>
    decreases items.len(),
{
    if items.len() == 0 {
        None
    } else if json_index(items[0], "type"@) == JsonSpec::Str(t) {
        Some(items[0])
    } else {
        find_by_type(items.drop_first(), t)
    }
}

/// The first method whose `publicKeyJwk.kid` is `kid`.
pub open spec fn find_by_kid(items: Seq<JsonSpec>, kid: Seq<char>) -> Option<JsonSpec>
    decreases items.len(),
{
    if items.len() == 0 {
        None
    } else if json_index(json_index(items[0], "publicKeyJwk"@), "kid"@) == JsonSpec::Str(kid) {
        Some(items[0])
    } else {
        find_by_kid(items.drop_first(), kid)
    }
}

/// base64url decoding as the documents use it.
pub open spec fn spec_decode_b64(s: Seq<char>) -> Result<Seq<u8>, SerializationErrorKind> {
    match spec_base64url_decode(s) {
        Some(b) => Ok(b),
        None => Err(SerializationErrorKind::InvalidBase64),
    }
}

/// base64url decoding of a 32-byte key.
pub open spec fn spec_decode_fixed32(s: Seq<char>) -> Result<Seq<u8>, SerializationErrorKind> {
    match spec_decode_b64(s) {
        Ok(b) => if b.len() == 32 {
            Ok(b)
        } else {
            Err(SerializationErrorKind::InvalidFormat)
        },
        Err(e) => Err(e),
    }
}

/// The 32-byte key in the text field `name` of `obj`.
pub open spec fn spec_field_key(obj: JsonSpec, name: Seq<char>) -> Result<Seq<u8>, SerializationErrorKind> {
    match field_text(obj, name) {
        None => Err(SerializationErrorKind::InvalidFormat),
        Some(s) => spec_decode_fixed32(s),
    }
}

/// The bytes in the text field `name` of `obj`.
pub open spec fn spec_field_bytes(obj: JsonSpec, name: Seq<char>) -> Result<Seq<u8>, SerializationErrorKind> {
    match field_text(obj, name) {
        None => Err(SerializationErrorKind::InvalidFormat),
        Some(s) => spec_decode_b64(s),
    }
}

/// The identity key of a DID document.
pub open spec fn spec_did_identity_key(doc: JsonSpec) -> Result<Seq<u8>, SerializationErrorKind> {
    match json_array(json_index(doc, "verificationMethod"@)) {
        None => Err(SerializationErrorKind::InvalidFormat),
        Some(methods) => match find_by_type(methods, "Ed25519VerificationKey2020"@) {
            None => Err(SerializationErrorKind::MissingIdentityKey),
            Some(method) => match spec_field_key(json_index(method, "publicKeyJwk"@), "x"@) {
                Err(e) => Err(e),
                Ok(key) => if spec_ed25519_key_valid(key) {
                    Ok(key)
                } else {
                    Err(SerializationErrorKind::InvalidFormat)
                },
            },
        },
    }
}

/// The key and signature of the key-agreement method `kid`.
pub open spec fn spec_agreement_key(
    agreements: Seq<JsonSpec>,
    kid: Seq<char>,
    missing: SerializationErrorKind,
) -> Result<(Seq<u8>, Seq<u8>), SerializationErrorKind> {
    match find_by_kid(agreements, kid) {
        None => Err(missing),
        Some(method) => {
            let jwk = json_index(method, "publicKeyJwk"@);
            match spec_field_key(jwk, "x"@) {
                Err(e) => Err(e),
                Ok(key) => match spec_field_bytes(jwk, "signature"@) {
                    Err(e) => Err(e),
                    Ok(sig) => Ok((key, sig)),
                },
            }
        },
    }
}

/// Reading a bundle from a DID document: the identity key, then the
/// identity-DH and signed-prekey agreement keys with their signatures; the
/// signatures must verify.
pub open spec fn spec_parse_did_document(doc: JsonSpec) -> Result<PublicBundleView, SerializationErrorKind> {
    match spec_did_identity_key(doc) {
        Err(e) => Err(e),
        Ok(identity) => match json_array(json_index(doc, "keyAgreement"@)) {
            None => Err(SerializationErrorKind::InvalidFormat),
            Some(agreements) => match spec_agreement_key(
                agreements,
                "identity-dh"@,
                SerializationErrorKind::MissingIdentityDhKey,
            ) {
                Err(e) => Err(e),
                Ok((dh_key, dh_sig)) => match spec_agreement_key(
                    agreements,
                    "signed-prekey"@,
                    SerializationErrorKind::MissingSignedPrekey,
                ) {
                    Err(e) => Err(e),
                    Ok((spk_key, spk_sig)) => {
                        let bundle = PublicBundleView {
                            identity_signing_public_key: identity,
                            identity_dh_public_key: dh_key,
                            identity_dh_signature: dh_sig,
                            signed_prekey_public_key: spk_key,
                            signed_prekey_signature: spk_sig,
                        };
                        if spec_bundle_signatures_valid(bundle) {
                            Ok(bundle)
                        } else {
                            Err(SerializationErrorKind::InvalidSignature)
                        }
                    },
                },
            },
        },
    }
}

/// What reading back a serialized bundle gives.
pub open spec fn spec_did_roundtrip(bundle: PublicBundleView) -> Result<PublicBundleView, SerializationErrorKind> {
    if !spec_ed25519_key_valid(bundle.identity_signing_public_key) {
        Err(SerializationErrorKind::InvalidFormat)
    } else if !spec_bundle_signatures_valid(bundle) {
        Err(SerializationErrorKind::InvalidSignature)
    } else {
        Ok(bundle)
    }
}

/// A key-agreement method entry.
fn agreement_method(did_id: &str, kid: &str, key: &[u8; 32], signature: &Vec<u8>) -> (v: JsonValue)
    ensures
        v@ == spec_agreement_method(did_id@, kid@, key@, signature@),
        spec_base64url_decode(spec_base64url_encode(key@)) == Some(key@),
        spec_base64url_decode(spec_base64url_encode(signature@)) == Some(signature@),
{
    let mut id = joined(did_id, "#");
    id.append(kid);
    let jwk = object(
        vec![
            entry("kty", text("OKP")),
            entry("crv", text("X25519")),
            entry("x", text_of(base64url_encode(key.as_slice()))),
            entry("kid", text(kid)),
            entry("use", text("enc")),
            entry("signature", text_of(base64url_encode(signature.as_slice()))),
        ],
    );
    let ghost jwk_view = jwk@;
    let v = object(
        vec![
            entry("id", text_of(id)),
            entry("type", text("X25519KeyAgreementKey2020")),
            entry("controller", text(did_id)),
            entry("publicKeyJwk", jwk),
        ],
    );
    proof {
        if let JsonSpec::Object(es) = jwk_view {
            assert(es =~= seq![
                ("kty"@, JsonSpec::Str("OKP"@)),
                ("crv"@, JsonSpec::Str("X25519"@)),
                ("x"@, JsonSpec::Str(spec_base64url_encode(key@))),
                ("kid"@, JsonSpec::Str(kid@)),
                ("use"@, JsonSpec::Str("enc"@)),
                ("signature"@, JsonSpec::Str(spec_base64url_encode(signature@))),
            ]);
        }
        if let JsonSpec::Object(es) = v@ {
            assert(es =~= seq![
                ("id"@, JsonSpec::Str(did_id@ + "#"@ + kid@)),
                ("type"@, JsonSpec::Str("X25519KeyAgreementKey2020"@)),
                ("controller"@, JsonSpec::Str(did_id@)),
                ("publicKeyJwk"@, jwk_view),
            ]);
        }
    }
    v
}

/// Serialize a bundle to a W3C DID document with identifier `did_id`.
///
/// The document reads back as the same bundle whenever the bundle's
/// signatures verify.
pub fn serialize_to_did_document(bundle: &SyftPublicKeyBundle, did_id: &str) -> (result: Result<JsonValue, SerializationError>)
    ensures
        result matches Ok(doc) && doc@ == spec_did_document(bundle@, did_id@)
            && spec_parse_did_document(doc@) == spec_did_roundtrip(bundle@),
{
    let context = array(
        vec![
            text("https://www.w3.org/ns/did/v1"),
            text("https://w3id.org/security/suites/ed25519-2020/v1"),
            text("https://w3id.org/security/suites/x25519-2020/v1"),
        ],
    );
    let ghost context_view = context@;
    let identity_x = base64url_encode(bundle.identity_signing_public_key.as_slice());
    let jwk = object(
        vec![
            entry("kty", text("OKP")),
            entry("crv", text("Ed25519")),
            entry("x", text_of(identity_x)),
            entry("kid", text("identity-key")),
            entry("use", text("sig")),
        ],
    );
    let ghost jwk_view = jwk@;
    let method = object(
        vec![
            entry("id", text_of(joined(did_id, "#identity-key"))),
            entry("type", text("Ed25519VerificationKey2020")),
            entry("controller", text(did_id)),
            entry("publicKeyJwk", jwk),
        ],
    );
    let ghost method_view = method@;
    let methods = array(vec![method]);
    let ghost methods_view = methods@;
    let dh_method = agreement_method(
        did_id,
        "identity-dh",
        &bundle.identity_dh_public_key,
        &bundle.identity_dh_signature,
    );
    let spk_method = agreement_method(
        did_id,
        "signed-prekey",
        &bundle.signed_prekey_public_key,
        &bundle.signed_prekey_signature,
    );
    let ghost dh_view = dh_method@;
    let ghost spk_view = spk_method@;
    let agreements = array(vec![dh_method, spk_method]);
    let ghost agreements_view = agreements@;
    let doc = object(
        vec![
            entry("@context", context),
            entry("id", text(did_id)),
            entry("verificationMethod", methods),
            entry("keyAgreement", agreements),
        ],
    );
    proof {
        if let JsonSpec::Array(xs) = context_view {
            assert(xs =~= seq![
                JsonSpec::Str("https://www.w3.org/ns/did/v1"@),
                JsonSpec::Str("https://w3id.org/security/suites/ed25519-2020/v1"@),
                JsonSpec::Str("https://w3id.org/security/suites/x25519-2020/v1"@),
            ]);
        }
        if let JsonSpec::Object(es) = jwk_view {
            assert(es =~= seq![
                ("kty"@, JsonSpec::Str("OKP"@)),
                ("crv"@, JsonSpec::Str("Ed25519"@)),
                ("x"@, JsonSpec::Str(spec_base64url_encode(bundle.identity_signing_public_key@))),
                ("kid"@, JsonSpec::Str("identity-key"@)),
                ("use"@, JsonSpec::Str("sig"@)),
            ]);
        }
        if let JsonSpec::Object(es) = method_view {
            assert(es =~= seq![
                ("id"@, JsonSpec::Str(did_id@ + "#identity-key"@)),
                ("type"@, JsonSpec::Str("Ed25519VerificationKey2020"@)),
                ("controller"@, JsonSpec::Str(did_id@)),
                ("publicKeyJwk"@, jwk_view),
            ]);
        }
        if let JsonSpec::Array(xs) = methods_view {
            assert(xs =~= seq![method_view]);
        }
        if let JsonSpec::Array(xs) = agreements_view {
            assert(xs =~= seq![dh_view, spk_view]);
        }
        if let JsonSpec::Object(es) = doc@ {
            assert(es =~= seq![
                ("@context"@, context_view),
                ("id"@, JsonSpec::Str(did_id@)),
                ("verificationMethod"@, methods_view),
                ("keyAgreement"@, agreements_view),
            ]);
        }
        assert(doc@ == spec_did_document(bundle@, did_id@));
        lemma_did_document_parses(bundle@, did_id@);
    }
    Ok(doc)
}

/// The first method with `publicKeyJwk.kid` equal to `kid` is at index `i`.
proof fn lemma_find_by_kid_at(items: Seq<JsonSpec>, kid: Seq<char>, i: int)
    requires
        0 <= i < items.len(),
        json_index(json_index(items[i], "publicKeyJwk"@), "kid"@) == JsonSpec::Str(kid),
        forall|j: int|
            0 <= j < i ==> json_index(json_index(#[trigger] items[j], "publicKeyJwk"@), "kid"@)
                != JsonSpec::Str(kid),
    ensures
        find_by_kid(items, kid) == Some(items[i]),
    decreases i,
{
    if i > 0 {
        let rest = items.drop_first();
        assert forall|j: int| 0 <= j < i - 1 implies json_index(
            json_index(#[trigger] rest[j], "publicKeyJwk"@),
            "kid"@,
        ) != JsonSpec::Str(kid) by {
            assert(rest[j] == items[j + 1]);
        }
        lemma_find_by_kid_at(rest, kid, i - 1);
    }
}

/// Reading the JWK of an agreement method built from `key` and `signature`.
proof fn lemma_agreement_method_parses(did: Seq<char>, kid: Seq<char>, key: Seq<u8>, signature: Seq<u8>)
    requires
        spec_base64url_decode(spec_base64url_encode(key)) == Some(key),
        spec_base64url_decode(spec_base64url_encode(signature)) == Some(signature),
        key.len() == 32,
    ensures
        ({
            let jwk = json_index(spec_agreement_method(did, kid, key, signature), "publicKeyJwk"@);
            &&& json_index(jwk, "kid"@) == JsonSpec::Str(kid)
            &&& spec_field_key(jwk, "x"@) == Ok::<Seq<u8>, SerializationErrorKind>(key)
            &&& spec_field_bytes(jwk, "signature"@) == Ok::<Seq<u8>, SerializationErrorKind>(signature)
        }),
{
    reveal_strlit("id");
    reveal_strlit("type");
    reveal_strlit("controller");
    reveal_strlit("publicKeyJwk");
    reveal_strlit("kty");
    reveal_strlit("crv");
    reveal_strlit("x");
    reveal_strlit("kid");
    reveal_strlit("use");
    reveal_strlit("signature");
    let m = spec_agreement_method(did, kid, key, signature);
    if let JsonSpec::Object(es) = m {
        assert forall|j: int| 0 <= j < 3 implies #[trigger] es[j].0 != "publicKeyJwk"@ by {
            if j == 0 {
                assert(es[0].0 == "id"@);
                assert("id"@.len() != "publicKeyJwk"@.len());
            } else if j == 1 {
                assert(es[1].0 == "type"@);
                assert("type"@.len() != "publicKeyJwk"@.len());
            } else if j == 2 {
                assert(es[2].0 == "controller"@);
                assert("controller"@.len() != "publicKeyJwk"@.len());
            }
        }
        lemma_entries_get_at(es, "publicKeyJwk"@, 3);
        let jwk = es[3].1;
        if let JsonSpec::Object(js) = jwk {
            assert forall|j: int| 0 <= j < 3 implies #[trigger] js[j].0 != "kid"@ by {
                if j == 0 {
                    assert(js[0].0 == "kty"@);
                    assert("kty"@[1] != "kid"@[1]);
                } else if j == 1 {
                    assert(js[1].0 == "crv"@);
                    assert("crv"@[0] != "kid"@[0]);
                } else if j == 2 {
                    assert(js[2].0 == "x"@);
                    assert("x"@.len() != "kid"@.len());
                }
            }
            lemma_entries_get_at(js, "kid"@, 3);
            assert forall|j: int| 0 <= j < 2 implies #[trigger] js[j].0 != "x"@ by {
                if j == 0 {
                    assert(js[0].0 == "kty"@);
                    assert("kty"@.len() != "x"@.len());
                } else if j == 1 {
                    assert(js[1].0 == "crv"@);
                    assert("crv"@.len() != "x"@.len());
                }
            }
            lemma_entries_get_at(js, "x"@, 2);
            assert forall|j: int| 0 <= j < 5 implies #[trigger] js[j].0 != "signature"@ by {
                if j == 0 {
                    assert(js[0].0 == "kty"@);
                    assert("kty"@.len() != "signature"@.len());
                } else if j == 1 {
                    assert(js[1].0 == "crv"@);
                    assert("crv"@.len() != "signature"@.len());
                } else if j == 2 {
                    assert(js[2].0 == "x"@);
                    assert("x"@.len() != "signature"@.len());
                } else if j == 3 {
                    assert(js[3].0 == "kid"@);
                    assert("kid"@.len() != "signature"@.len());
                } else if j == 4 {
                    assert(js[4].0 == "use"@);
                    assert("use"@.len() != "signature"@.len());
                }
            }
            lemma_entries_get_at(js, "signature"@, 5);
        }
    }
}

/// A DID document built from a bundle parses back as the bundle, provided
/// the base64url encodings of its fields decode to them.
proof fn lemma_did_document_parses(bundle: PublicBundleView, did: Seq<char>)
    requires
        spec_base64url_decode(spec_base64url_encode(bundle.identity_signing_public_key)) == Some(
            bundle.identity_signing_public_key,
        ),
        spec_base64url_decode(spec_base64url_encode(bundle.identity_dh_public_key)) == Some(
            bundle.identity_dh_public_key,
        ),
        spec_base64url_decode(spec_base64url_encode(bundle.identity_dh_signature)) == Some(
            bundle.identity_dh_signature,
        ),
        spec_base64url_decode(spec_base64url_encode(bundle.signed_prekey_public_key)) == Some(
            bundle.signed_prekey_public_key,
        ),
        spec_base64url_decode(spec_base64url_encode(bundle.signed_prekey_signature)) == Some(
            bundle.signed_prekey_signature,
        ),
        bundle.identity_signing_public_key.len() == 32,
        bundle.identity_dh_public_key.len() == 32,
        bundle.signed_prekey_public_key.len() == 32,
    ensures
        spec_parse_did_document(spec_did_document(bundle, did)) == spec_did_roundtrip(bundle),
{
    reveal_strlit("@context");
    reveal_strlit("id");
    reveal_strlit("verificationMethod");
    reveal_strlit("keyAgreement");
    reveal_strlit("type");
    reveal_strlit("controller");
    reveal_strlit("publicKeyJwk");
    reveal_strlit("kty");
    reveal_strlit("crv");
    reveal_strlit("x");
    reveal_strlit("kid");
    reveal_strlit("use");
    reveal_strlit("identity-dh");
    reveal_strlit("signed-prekey");
    let doc = spec_did_document(bundle, did);
    let dh = spec_agreement_method(
        did,
        "identity-dh"@,
        bundle.identity_dh_public_key,
        bundle.identity_dh_signature,
    );
    let spk = spec_agreement_method(
        did,
        "signed-prekey"@,
        bundle.signed_prekey_public_key,
        bundle.signed_prekey_signature,
    );
    lemma_agreement_method_parses(
        did,
        "identity-dh"@,
        bundle.identity_dh_public_key,
        bundle.identity_dh_signature,
    );
    lemma_agreement_method_parses(
        did,
        "signed-prekey"@,
        bundle.signed_prekey_public_key,
        bundle.signed_prekey_signature,
    );
    if let JsonSpec::Object(es) = doc {
        assert forall|j: int| 0 <= j < 2 implies #[trigger] es[j].0 != "verificationMethod"@ by {
            if j == 0 {
                assert(es[0].0 == "@context"@);
                assert("@context"@.len() != "verificationMethod"@.len());
            } else if j == 1 {
                assert(es[1].0 == "id"@);
                assert("id"@.len() != "verificationMethod"@.len());
            }
        }
        lemma_entries_get_at(es, "verificationMethod"@, 2);
        assert forall|j: int| 0 <= j < 3 implies #[trigger] es[j].0 != "keyAgreement"@ by {
            if j == 0 {
                assert(es[0].0 == "@context"@);
                assert("@context"@.len() != "keyAgreement"@.len());
            } else if j == 1 {
                assert(es[1].0 == "id"@);
                assert("id"@.len() != "keyAgreement"@.len());
            } else if j == 2 {
                assert(es[2].0 == "verificationMethod"@);
                assert("verificationMethod"@.len() != "keyAgreement"@.len());
            }
        }
        lemma_entries_get_at(es, "keyAgreement"@, 3);
        if let JsonSpec::Array(ms) = es[2].1 {
            let method = ms[0];
            if let JsonSpec::Object(mes) = method {
                assert forall|j: int| 0 <= j < 1 implies #[trigger] mes[j].0 != "type"@ by {
                    if j == 0 {
                        assert(mes[0].0 == "id"@);
                        assert("id"@.len() != "type"@.len());
                    }
                }
                lemma_entries_get_at(mes, "type"@, 1);
                assert forall|j: int| 0 <= j < 3 implies #[trigger] mes[j].0 != "publicKeyJwk"@ by {
                    if j == 0 {
                        assert(mes[0].0 == "id"@);
                        assert("id"@.len() != "publicKeyJwk"@.len());
                    } else if j == 1 {
                        assert(mes[1].0 == "type"@);
                        assert("type"@.len() != "publicKeyJwk"@.len());
                    } else if j == 2 {
                        assert(mes[2].0 == "controller"@);
                        assert("controller"@.len() != "publicKeyJwk"@.len());
                    }
                }
                lemma_entries_get_at(mes, "publicKeyJwk"@, 3);
                if let JsonSpec::Object(jes) = mes[3].1 {
                    assert forall|j: int| 0 <= j < 2 implies #[trigger] jes[j].0 != "x"@ by {
                        if j == 0 {
                            assert(jes[0].0 == "kty"@);
                            assert("kty"@.len() != "x"@.len());
                        } else if j == 1 {
                            assert(jes[1].0 == "crv"@);
                            assert("crv"@.len() != "x"@.len());
                        }
                    }
                    lemma_entries_get_at(jes, "x"@, 2);
                }
            }
            assert(find_by_type(ms, "Ed25519VerificationKey2020"@) == Some(method));
        }
        if let JsonSpec::Array(ags) = es[3].1 {
            assert(ags == seq![dh, spk]);
            lemma_find_by_kid_at(ags, "identity-dh"@, 0);
            lemma_find_by_kid_at(ags, "signed-prekey"@, 1);
        }
    }
}

/// The kid, key and signature fields of an agreement method's JWK.
proof fn lemma_agreement_method_fields(did: Seq<char>, kid: Seq<char>, key: Seq<u8>, signature: Seq<u8>)
    ensures
        ({
            let jwk = json_index(spec_agreement_method(did, kid, key, signature), "publicKeyJwk"@);
            &&& json_index(jwk, "kid"@) == JsonSpec::Str(kid)
            &&& json_index(jwk, "x"@) == JsonSpec::Str(spec_base64url_encode(key))
            &&& json_index(jwk, "signature"@) == JsonSpec::Str(spec_base64url_encode(signature))
        }),
{
    reveal_strlit("id");
    reveal_strlit("type");
    reveal_strlit("controller");
    reveal_strlit("publicKeyJwk");
    reveal_strlit("kty");
    reveal_strlit("crv");
    reveal_strlit("x");
    reveal_strlit("kid");
    reveal_strlit("use");
    reveal_strlit("signature");
    if let JsonSpec::Object(es) = spec_agreement_method(did, kid, key, signature) {
        assert forall|j: int| 0 <= j < 3 implies #[trigger] es[j].0 != "publicKeyJwk"@ by {
            if j == 0 {
                assert("id"@.len() != "publicKeyJwk"@.len());
            } else if j == 1 {
                assert("type"@.len() != "publicKeyJwk"@.len());
            } else {
                assert("controller"@.len() != "publicKeyJwk"@.len());
            }
        }
        lemma_entries_get_at(es, "publicKeyJwk"@, 3);
        if let JsonSpec::Object(js) = es[3].1 {
            assert forall|j: int| 0 <= j < 3 implies #[trigger] js[j].0 != "kid"@ by {
                if j == 0 {
                    assert("kty"@[1] != "kid"@[1]);
                } else if j == 1 {
                    assert("crv"@[0] != "kid"@[0]);
                } else {
                    assert("x"@.len() != "kid"@.len());
                }
            }
            lemma_entries_get_at(js, "kid"@, 3);
            assert forall|j: int| 0 <= j < 2 implies #[trigger] js[j].0 != "x"@ by {
                if j == 0 {
                    assert("kty"@.len() != "x"@.len());
                } else {
                    assert("crv"@.len() != "x"@.len());
                }
            }
            lemma_entries_get_at(js, "x"@, 2);
            assert forall|j: int| 0 <= j < 5 implies #[trigger] js[j].0 != "signature"@ by {
                if j == 0 {
                    assert("kty"@.len() != "signature"@.len());
                } else if j == 1 {
                    assert("crv"@.len() != "signature"@.len());
                } else if j == 2 {
                    assert("x"@.len() != "signature"@.len());
                } else if j == 3 {
                    assert("kid"@.len() != "signature"@.len());
                } else {
                    assert("use"@.len() != "signature"@.len());
                }
            }
            lemma_entries_get_at(js, "signature"@, 5);
        }
    }
}

/// In a bundle's DID document, the key-agreement method whose JWK kid is
/// `identity-dh` carries, base64url-encoded, the bundle's identity DH key
/// and its signature, and the one whose kid is `signed-prekey` carries the
/// signed prekey and its signature.
pub proof fn law_did_agreement_keys_by_kid(bundle: PublicBundleView, did: Seq<char>)
    ensures
        ({
            let agreements = json_index(spec_did_document(bundle, did), "keyAgreement"@);
            &&& json_array(agreements) is Some
            &&& find_by_kid(json_array(agreements)->Some_0, "identity-dh"@) is Some
            &&& find_by_kid(json_array(agreements)->Some_0, "signed-prekey"@) is Some
            &&& json_index(
                json_index(find_by_kid(json_array(agreements)->Some_0, "identity-dh"@)->Some_0, "publicKeyJwk"@),
                "x"@,
            ) == JsonSpec::Str(spec_base64url_encode(bundle.identity_dh_public_key))
            &&& json_index(
                json_index(find_by_kid(json_array(agreements)->Some_0, "identity-dh"@)->Some_0, "publicKeyJwk"@),
                "signature"@,
            ) == JsonSpec::Str(spec_base64url_encode(bundle.identity_dh_signature))
            &&& json_index(
                json_index(find_by_kid(json_array(agreements)->Some_0, "signed-prekey"@)->Some_0, "publicKeyJwk"@),
                "x"@,
            ) == JsonSpec::Str(spec_base64url_encode(bundle.signed_prekey_public_key))
            &&& json_index(
                json_index(find_by_kid(json_array(agreements)->Some_0, "signed-prekey"@)->Some_0, "publicKeyJwk"@),
                "signature"@,
            ) == JsonSpec::Str(spec_base64url_encode(bundle.signed_prekey_signature))
        }),
{
    reveal_strlit("@context");
    reveal_strlit("id");
    reveal_strlit("verificationMethod");
    reveal_strlit("keyAgreement");
    reveal_strlit("identity-dh");
    reveal_strlit("signed-prekey");
    let dh_key = bundle.identity_dh_public_key;
    let dh_sig = bundle.identity_dh_signature;
    let spk_key = bundle.signed_prekey_public_key;
    let spk_sig = bundle.signed_prekey_signature;
    lemma_agreement_method_fields(did, "identity-dh"@, dh_key, dh_sig);
    lemma_agreement_method_fields(did, "signed-prekey"@, spk_key, spk_sig);
    if let JsonSpec::Object(es) = spec_did_document(bundle, did) {
        assert forall|j: int| 0 <= j < 3 implies #[trigger] es[j].0 != "keyAgreement"@ by {
            if j == 0 {
                assert("@context"@.len() != "keyAgreement"@.len());
            } else if j == 1 {
                assert("id"@.len() != "keyAgreement"@.len());
            } else {
                assert("verificationMethod"@.len() != "keyAgreement"@.len());
            }
        }
        lemma_entries_get_at(es, "keyAgreement"@, 3);
        if let JsonSpec::Array(ags) = es[3].1 {
            assert(ags[0] == spec_agreement_method(did, "identity-dh"@, dh_key, dh_sig));
            assert(ags[1] == spec_agreement_method(did, "signed-prekey"@, spk_key, spk_sig));
            lemma_find_by_kid_at(ags, "identity-dh"@, 0);
            lemma_find_by_kid_at(ags, "signed-prekey"@, 1);
        }
    }
}

/// A bundle read from a DID document holds, as its identity DH key and
/// signature, what the key-agreement method with kid `identity-dh`
/// carries, and as its signed prekey and signature what the method with
/// kid `signed-prekey` carries; its identity key is the document's
/// Ed25519 verification key.
pub proof fn law_did_reading_takes_keys_by_kid(doc: JsonSpec)
    requires
        spec_parse_did_document(doc) is Ok,
    ensures
        ({
            let b = spec_parse_did_document(doc)->Ok_0;
            let agreements = json_array(json_index(doc, "keyAgreement"@));
            &&& spec_did_identity_key(doc) == Ok::<Seq<u8>, SerializationErrorKind>(b.identity_signing_public_key)
            &&& agreements is Some
            &&& find_by_kid(agreements->Some_0, "identity-dh"@) is Some
            &&& find_by_kid(agreements->Some_0, "signed-prekey"@) is Some
            &&& spec_field_key(
                json_index(find_by_kid(agreements->Some_0, "identity-dh"@)->Some_0, "publicKeyJwk"@),
                "x"@,
            ) == Ok::<Seq<u8>, SerializationErrorKind>(b.identity_dh_public_key)
            &&& spec_field_bytes(
                json_index(find_by_kid(agreements->Some_0, "identity-dh"@)->Some_0, "publicKeyJwk"@),
                "signature"@,
            ) == Ok::<Seq<u8>, SerializationErrorKind>(b.identity_dh_signature)
            &&& spec_field_key(
                json_index(find_by_kid(agreements->Some_0, "signed-prekey"@)->Some_0, "publicKeyJwk"@),
                "x"@,
            ) == Ok::<Seq<u8>, SerializationErrorKind>(b.signed_prekey_public_key)
            &&& spec_field_bytes(
                json_index(find_by_kid(agreements->Some_0, "signed-prekey"@)->Some_0, "publicKeyJwk"@),
                "signature"@,
            ) == Ok::<Seq<u8>, SerializationErrorKind>(b.signed_prekey_signature)
        }),
{
}

// ----------------------------------------------------------------------
// Reading a DID document
// ----------------------------------------------------------------------

/// A field's model, `Null` when absent.
pub open spec fn opt_view(v: Option<&JsonValue>) -> JsonSpec {
    match v {
        Some(x) => x@,
        None => JsonSpec::Null,
    }
}

/// `r` is the outcome `s` describes, for byte results.
pub open spec fn bytes_result_is(r: Result<Vec<u8>, SerializationError>, s: Result<Seq<u8>, SerializationErrorKind>) -> bool {
    match s {
        Ok(b) => r matches Ok(v) && v@ == b,
        Err(k) => r matches Err(e) && e.spec_kind() == k,
    }
}

/// `r` is the outcome `s` describes, for 32-byte results.
pub open spec fn key_result_is(r: Result<[u8; 32], SerializationError>, s: Result<Seq<u8>, SerializationErrorKind>) -> bool {
    match s {
        Ok(b) => r matches Ok(v) && v@ == b,
        Err(k) => r matches Err(e) && e.spec_kind() == k,
    }
}

/// base64url-decode a field value.
fn decode_base64url(s: &str) -> (r: Result<Vec<u8>, SerializationError>)
    ensures
        bytes_result_is(r, spec_decode_b64(s@)),
{
    match base64url_decode(s) {
        Ok(bytes) => Ok(bytes),
        Err(message) => Err(SerializationError::InvalidBase64(message)),
    }
}

/// base64url-decode a 32-byte key.
fn decode_fixed32(s: &str) -> (r: Result<[u8; 32], SerializationError>)
    ensures
        key_result_is(r, spec_decode_fixed32(s@)),
{
    let bytes = match decode_base64url(s) {
        Ok(b) => b,
        Err(e) => {
            return Err(e);
        },
    };
    if bytes.len() != 32 {
        return Err(SerializationError::InvalidFormat);
    }
    let mut out = [0u8; 32];
    let mut i: usize = 0;
    while i < 32
        invariant
            bytes@.len() == 32,
            i <= 32,
            forall|k: int| 0 <= k < i ==> out@[k] == bytes@[k],
        decreases 32 - i,
    {
        out[i] = bytes[i];
        i = i + 1;
    }
    assert(out@ =~= bytes@);
    Ok(out)
}

/// The text of field `name` of `obj`, if it is a string.
fn field_str<'a>(obj: Option<&'a JsonValue>, name: &str) -> (s: Option<&'a String>)
    ensures
        match field_text(opt_view(obj), name@) {
            Some(t) => s matches Some(x) && x@ == t,
            None => s is None,
        },
{
    match field_of(obj, name) {
        Some(f) => f.as_str(),
        None => None,
    }
}

/// The 32-byte key in field `name` of `obj`.
fn field_key(obj: Option<&JsonValue>, name: &str) -> (r: Result<[u8; 32], SerializationError>)
    ensures
        key_result_is(r, spec_field_key(opt_view(obj), name@)),
{
    match field_str(obj, name) {
        Some(s) => decode_fixed32(s.as_str()),
        None => Err(SerializationError::InvalidFormat),
    }
}

/// The bytes in field `name` of `obj`.
fn field_bytes(obj: Option<&JsonValue>, name: &str) -> (r: Result<Vec<u8>, SerializationError>)
    ensures
        bytes_result_is(r, spec_field_bytes(opt_view(obj), name@)),
{
    match field_str(obj, name) {
        Some(s) => decode_base64url(s.as_str()),
        None => Err(SerializationError::InvalidFormat),
    }
}

/// The index of the first method whose `type` is `t`.
fn position_by_type(items: &Vec<JsonValue>, t: &str) -> (r: Option<usize>)
    ensures
        match find_by_type(json_seq_of(items@), t@) {
            Some(m) => r matches Some(i) && i < items@.len() && items@[i as int]@ == m,
            None => r is None,
        },
{
    let ghost all = json_seq_of(items@);
    assert(all.skip(0) =~= all);
    let mut i: usize = 0;
    while i < items.len()
        invariant
            all == json_seq_of(items@),
            i <= items.len(),
            find_by_type(all, t@) == find_by_type(all.skip(i as int), t@),
        decreases items.len() - i,
    {
        let ghost rest = all.skip(i as int);
        assert(rest[0] == items@[i as int]@);
        assert(rest.drop_first() =~= all.skip(i + 1));
        let is_match = match items[i].get("type") {
            Some(f) => f.is_text(t),
            None => false,
        };
        if is_match {
            return Some(i);
        }
        i = i + 1;
    }
    assert(all.skip(i as int).len() == 0);
    None
}

/// The index of the first method whose `publicKeyJwk.kid` is `kid`.
fn position_by_kid(items: &Vec<JsonValue>, kid: &str) -> (r: Option<usize>)
    ensures
        match find_by_kid(json_seq_of(items@), kid@) {
            Some(m) => r matches Some(i) && i < items@.len() && items@[i as int]@ == m,
            None => r is None,
        },
{
    let ghost all = json_seq_of(items@);
    assert(all.skip(0) =~= all);
    let mut i: usize = 0;
    while i < items.len()
        invariant
            all == json_seq_of(items@),
            i <= items.len(),
            find_by_kid(all, kid@) == find_by_kid(all.skip(i as int), kid@),
        decreases items.len() - i,
    {
        let ghost rest = all.skip(i as int);
        assert(rest[0] == items@[i as int]@);
        assert(rest.drop_first() =~= all.skip(i + 1));
        let is_match = match field_of(items[i].get("publicKeyJwk"), "kid") {
            Some(f) => f.is_text(kid),
            None => false,
        };
        if is_match {
            return Some(i);
        }
        i = i + 1;
    }
    assert(all.skip(i as int).len() == 0);
    None
}

/// The models of the items.
pub open spec fn json_seq_of(items: Seq<JsonValue>) -> Seq<JsonSpec> {
    Seq::new(items.len(), |i: int| items[i]@)
}

/// The items of an array field, with their models.
fn array_field<'a>(doc: &'a JsonValue, name: &str) -> (r: Option<&'a Vec<JsonValue>>)
    ensures
        match json_array(json_index(doc@, name@)) {
            Some(xs) => r matches Some(v) && xs == json_seq_of(v@),
            None => r is None,
        },
{
    match doc.get(name) {
        Some(f) => {
            let items = f.as_array();
            proof {
                if let Some(v) = items {
                    if let JsonSpec::Array(xs) = f@ {
                        assert(xs =~= json_seq_of(v@));
                    }
                }
            }
            items
        },
        None => None,
    }
}

/// The `(key, signature)` of the key-agreement method `kid`.
fn agreement_key(agreements: &Vec<JsonValue>, kid: &str, missing: SerializationError) -> (r: Result<([u8; 32], Vec<u8>), SerializationError>)
    ensures
        match spec_agreement_key(json_seq_of(agreements@), kid@, missing.spec_kind()) {
            Ok((k, s)) => r matches Ok((rk, rs)) && rk@ == k && rs@ == s,
            Err(e) => r matches Err(re) && re.spec_kind() == e,
        },
{
    let index = match position_by_kid(agreements, kid) {
        Some(i) => i,
        None => {
            return Err(missing);
        },
    };
    let jwk = agreements[index].get("publicKeyJwk");
    let key = match field_key(jwk, "x") {
        Ok(k) => k,
        Err(e) => {
            return Err(e);
        },
    };
    let signature = match field_bytes(jwk, "signature") {
        Ok(s) => s,
        Err(e) => {
            return Err(e);
        },
    };
    Ok((key, signature))
}

/// `r` is the outcome `s` describes, for bundles.
pub open spec fn bundle_result_is(
    r: Result<SyftPublicKeyBundle, SerializationError>,
    s: Result<PublicBundleView, SerializationErrorKind>,
) -> bool {
    match s {
        Ok(b) => r matches Ok(v) && v@ == b,
        Err(k) => r matches Err(e) && e.spec_kind() == k,
    }
}

/// Read a bundle from a DID document; the signatures must verify.
pub fn deserialize_from_did_document(json: &JsonValue) -> (result: Result<SyftPublicKeyBundle, SerializationError>)
    ensures
        bundle_result_is(result, spec_parse_did_document(json@)),
{
    let methods = match array_field(json, "verificationMethod") {
        Some(m) => m,
        None => {
            return Err(SerializationError::InvalidFormat);
        },
    };
    let index = match position_by_type(methods, "Ed25519VerificationKey2020") {
        Some(i) => i,
        None => {
            return Err(SerializationError::MissingIdentityKey);
        },
    };
    let identity_key = match field_key(methods[index].get("publicKeyJwk"), "x") {
        Ok(k) => k,
        Err(e) => {
            return Err(e);
        },
    };
    if !ed25519_key_is_valid(&identity_key) {
        return Err(SerializationError::InvalidFormat);
    }
    let agreements = match array_field(json, "keyAgreement") {
        Some(a) => a,
        None => {
            return Err(SerializationError::InvalidFormat);
        },
    };
    let (identity_dh_key, identity_dh_signature) = match agreement_key(
        agreements,
        "identity-dh",
        SerializationError::MissingIdentityDhKey,
    ) {
        Ok(p) => p,
        Err(e) => {
            return Err(e);
        },
    };
    let (signed_prekey, signed_prekey_signature) = match agreement_key(
        agreements,
        "signed-prekey",
        SerializationError::MissingSignedPrekey,
    ) {
        Ok(p) => p,
        Err(e) => {
            return Err(e);
        },
    };
    let bundle = SyftPublicKeyBundle {
        identity_signing_public_key: identity_key,
        identity_dh_public_key: identity_dh_key,
        identity_dh_signature,
        signed_prekey_public_key: signed_prekey,
        signed_prekey_signature,
    };
    if !bundle.verify_signatures() {
        return Err(SerializationError::InvalidSignature);
    }
    Ok(bundle)
}

// ----------------------------------------------------------------------
// Private keys document
// ----------------------------------------------------------------------

/// One private key entry: its public `x` and private `d`, base64url.
pub open spec fn spec_private_jwk(
    crv: Seq<char>,
    public: Seq<u8>,
    private: Seq<u8>,
    kid: Seq<char>,
    key_use: Seq<char>,
) -> JsonSpec {
    JsonSpec::Object(
        seq![
            ("kty"@, JsonSpec::Str("OKP"@)),
            ("crv"@, JsonSpec::Str(crv)),
            ("x"@, JsonSpec::Str(spec_base64url_encode(public))),
            ("d"@, JsonSpec::Str(spec_base64url_encode(private))),
            ("kid"@, JsonSpec::Str(kid)),
            ("use"@, JsonSpec::Str(key_use)),
        ],
    )
}

/// The private keys document of a set of private keys.
pub open spec fn spec_private_keys_document(keys: PrivateKeysView) -> JsonSpec {
    JsonSpec::Object(
        seq![
            (
                "identity_key"@,
                spec_private_jwk(
                    "Ed25519"@,
                    spec_ed25519_public(keys.identity),
                    keys.identity,
                    "identity-key"@,
                    "sig"@,
                ),
            ),
            (
                "identity_dh"@,
                spec_private_jwk(
                    "X25519"@,
                    spec_x25519_public(keys.identity_dh),
                    keys.identity_dh,
                    "identity-dh"@,
                    "enc"@,
                ),
            ),
            (
                "signed_prekey"@,
                spec_private_jwk(
                    "X25519"@,
                    spec_x25519_public(keys.signed_pre_key),
                    keys.signed_pre_key,
                    "signed-prekey"@,
                    "enc"@,
                ),
            ),
        ],
    )
}

/// The private `d` and public `x` keys of an entry, in that order.
pub open spec fn spec_key_pair(obj: JsonSpec) -> Result<(Seq<u8>, Seq<u8>), SerializationErrorKind> {
    match spec_field_key(obj, "d"@) {
        Err(e) => Err(e),
        Ok(private) => match spec_field_key(obj, "x"@) {
            Err(e) => Err(e),
            Ok(public) => Ok((private, public)),
        },
    }
}

/// Reading private keys: each entry's public key must be the one its
/// private key gives.
pub open spec fn spec_parse_private_keys(doc: JsonSpec) -> Result<PrivateKeysView, SerializationErrorKind> {
    match json_get(doc, "identity_key"@) {
        None => Err(SerializationErrorKind::MissingIdentityKey),
        Some(identity) => match spec_key_pair(identity) {
            Err(e) => Err(e),
            Ok((id_d, id_x)) => if spec_ed25519_public(id_d) != id_x {
                Err(SerializationErrorKind::InvalidSignature)
            } else {
                match json_get(doc, "identity_dh"@) {
                    None => Err(SerializationErrorKind::MissingIdentityDhKey),
                    Some(dh) => match spec_key_pair(dh) {
                        Err(e) => Err(e),
                        Ok((dh_d, dh_x)) => if spec_x25519_public(dh_d) != dh_x {
                            Err(SerializationErrorKind::InvalidSignature)
                        } else {
                            match json_get(doc, "signed_prekey"@) {
                                None => Err(SerializationErrorKind::MissingSignedPrekey),
                                Some(spk) => match spec_key_pair(spk) {
                                    Err(e) => Err(e),
                                    Ok((spk_d, spk_x)) => if spec_x25519_public(spk_d) != spk_x {
                                        Err(SerializationErrorKind::InvalidSignature)
                                    } else {
                                        Ok(
                                            PrivateKeysView {
                                                identity: id_d,
                                                identity_dh: dh_d,
                                                signed_pre_key: spk_d,
                                            },
                                        )
                                    },
                                },
                            }
                        },
                    },
                }
            },
        },
    }
}

/// One private key entry.
fn private_jwk(crv: &str, public: &[u8; 32], private: &[u8; 32], kid: &str, key_use: &str) -> (v: JsonValue)
    ensures
        v@ == spec_private_jwk(crv@, public@, private@, kid@, key_use@),
        spec_base64url_decode(spec_base64url_encode(public@)) == Some(public@),
        spec_base64url_decode(spec_base64url_encode(private@)) == Some(private@),
{
    let v = object(
        vec![
            entry("kty", text("OKP")),
            entry("crv", text(crv)),
            entry("x", text_of(base64url_encode(public.as_slice()))),
            entry("d", text_of(base64url_encode(private.as_slice()))),
            entry("kid", text(kid)),
            entry("use", text(key_use)),
        ],
    );
    proof {
        if let JsonSpec::Object(es) = v@ {
            assert(es =~= seq![
                ("kty"@, JsonSpec::Str("OKP"@)),
                ("crv"@, JsonSpec::Str(crv@)),
                ("x"@, JsonSpec::Str(spec_base64url_encode(public@))),
                ("d"@, JsonSpec::Str(spec_base64url_encode(private@))),
                ("kid"@, JsonSpec::Str(kid@)),
                ("use"@, JsonSpec::Str(key_use@)),
            ]);
        }
    }
    v
}

/// Serialize private keys to a JWKS-like document.
///
/// The document reads back, with `deserialize_private_keys`, as the same keys.
pub fn serialize_private_keys(keys: &SyftPrivateKeys) -> (result: Result<JsonValue, SerializationError>)
    ensures
        result matches Ok(doc) && doc@ == spec_private_keys_document(keys@)
            && spec_parse_private_keys(doc@) == Ok::<PrivateKeysView, SerializationErrorKind>(keys@),
{
    let identity_public = ed25519_public_key(keys.identity());
    let identity_dh_public = x25519_public_key(keys.identity_dh());
    let signed_pre_key_public = x25519_public_key(keys.signed_pre_key());
    let identity = private_jwk("Ed25519", &identity_public, keys.identity(), "identity-key", "sig");
    let identity_dh = private_jwk("X25519", &identity_dh_public, keys.identity_dh(), "identity-dh", "enc");
    let signed_prekey = private_jwk(
        "X25519",
        &signed_pre_key_public,
        keys.signed_pre_key(),
        "signed-prekey",
        "enc",
    );
    let ghost identity_view = identity@;
    let ghost identity_dh_view = identity_dh@;
    let ghost signed_prekey_view = signed_prekey@;
    let doc = object(
        vec![
            entry("identity_key", identity),
            entry("identity_dh", identity_dh),
            entry("signed_prekey", signed_prekey),
        ],
    );
    proof {
        if let JsonSpec::Object(es) = doc@ {
            assert(es =~= seq![
                ("identity_key"@, identity_view),
                ("identity_dh"@, identity_dh_view),
                ("signed_prekey"@, signed_prekey_view),
            ]);
        }
        lemma_private_keys_document_parses(keys@);
    }
    Ok(doc)
}

/// Reading a private key entry built from `public` and `private`.
proof fn lemma_private_jwk_parses(
    crv: Seq<char>,
    public: Seq<u8>,
    private: Seq<u8>,
    kid: Seq<char>,
    key_use: Seq<char>,
)
    requires
        spec_base64url_decode(spec_base64url_encode(public)) == Some(public),
        spec_base64url_decode(spec_base64url_encode(private)) == Some(private),
        public.len() == 32,
        private.len() == 32,
    ensures
        spec_key_pair(spec_private_jwk(crv, public, private, kid, key_use)) == Ok::<
            (Seq<u8>, Seq<u8>),
            SerializationErrorKind,
        >((private, public)),
{
    reveal_strlit("kty");
    reveal_strlit("crv");
    reveal_strlit("x");
    reveal_strlit("d");
    if let JsonSpec::Object(js) = spec_private_jwk(crv, public, private, kid, key_use) {
        assert forall|j: int| 0 <= j < 2 implies #[trigger] js[j].0 != "x"@ by {
            if j == 0 {
                assert(js[0].0 == "kty"@);
                assert("kty"@.len() != "x"@.len());
            } else {
                assert(js[1].0 == "crv"@);
                assert("crv"@.len() != "x"@.len());
            }
        }
        lemma_entries_get_at(js, "x"@, 2);
        assert forall|j: int| 0 <= j < 3 implies #[trigger] js[j].0 != "d"@ by {
            if j == 0 {
                assert(js[0].0 == "kty"@);
                assert("kty"@.len() != "d"@.len());
            } else if j == 1 {
                assert(js[1].0 == "crv"@);
                assert("crv"@.len() != "d"@.len());
            } else {
                assert(js[2].0 == "x"@);
                assert("x"@[0] != "d"@[0]);
            }
        }
        lemma_entries_get_at(js, "d"@, 3);
    }
}

/// A private keys document built from keys parses back as the keys, given
/// the decoding facts of its base64url fields.
proof fn lemma_private_keys_document_parses(keys: PrivateKeysView)
    requires
        spec_base64url_decode(spec_base64url_encode(spec_ed25519_public(keys.identity))) == Some(
            spec_ed25519_public(keys.identity),
        ),
        spec_base64url_decode(spec_base64url_encode(keys.identity)) == Some(keys.identity),
        spec_base64url_decode(spec_base64url_encode(spec_x25519_public(keys.identity_dh))) == Some(
            spec_x25519_public(keys.identity_dh),
        ),
        spec_base64url_decode(spec_base64url_encode(keys.identity_dh)) == Some(keys.identity_dh),
        spec_base64url_decode(spec_base64url_encode(spec_x25519_public(keys.signed_pre_key))) == Some(
            spec_x25519_public(keys.signed_pre_key),
        ),
        spec_base64url_decode(spec_base64url_encode(keys.signed_pre_key)) == Some(keys.signed_pre_key),
        keys.identity.len() == 32,
        keys.identity_dh.len() == 32,
        keys.signed_pre_key.len() == 32,
        spec_ed25519_public(keys.identity).len() == 32,
        spec_x25519_public(keys.identity_dh).len() == 32,
        spec_x25519_public(keys.signed_pre_key).len() == 32,
    ensures
        spec_parse_private_keys(spec_private_keys_document(keys)) == Ok::<
            PrivateKeysView,
            SerializationErrorKind,
        >(keys),
{
    reveal_strlit("identity_key");
    reveal_strlit("identity_dh");
    reveal_strlit("signed_prekey");
    lemma_private_jwk_parses(
        "Ed25519"@,
        spec_ed25519_public(keys.identity),
        keys.identity,
        "identity-key"@,
        "sig"@,
    );
    lemma_private_jwk_parses(
        "X25519"@,
        spec_x25519_public(keys.identity_dh),
        keys.identity_dh,
        "identity-dh"@,
        "enc"@,
    );
    lemma_private_jwk_parses(
        "X25519"@,
        spec_x25519_public(keys.signed_pre_key),
        keys.signed_pre_key,
        "signed-prekey"@,
        "enc"@,
    );
    if let JsonSpec::Object(es) = spec_private_keys_document(keys) {
        assert(es[0].0 == "identity_key"@);
        assert(es[1].0 == "identity_dh"@);
        assert(es[2].0 == "signed_prekey"@);
        lemma_entries_get_at(es, "identity_key"@, 0);
        assert forall|j: int| 0 <= j < 1 implies #[trigger] es[j].0 != "identity_dh"@ by {
            assert("identity_key"@[9] != "identity_dh"@[9]);
        }
        lemma_entries_get_at(es, "identity_dh"@, 1);
        assert forall|j: int| 0 <= j < 2 implies #[trigger] es[j].0 != "signed_prekey"@ by {
            assert("identity_key"@[0] != "signed_prekey"@[0]);
            assert("identity_dh"@.len() != "signed_prekey"@.len());
        }
        lemma_entries_get_at(es, "signed_prekey"@, 2);
    }
}

/// The `x` and `d` fields of a private key entry.
proof fn lemma_private_jwk_fields(
    crv: Seq<char>,
    public: Seq<u8>,
    private: Seq<u8>,
    kid: Seq<char>,
    key_use: Seq<char>,
)
    ensures
        json_index(spec_private_jwk(crv, public, private, kid, key_use), "x"@) == JsonSpec::Str(
            spec_base64url_encode(public),
        ),
        json_index(spec_private_jwk(crv, public, private, kid, key_use), "d"@) == JsonSpec::Str(
            spec_base64url_encode(private),
        ),
{
    reveal_strlit("kty");
    reveal_strlit("crv");
    reveal_strlit("x");
    reveal_strlit("d");
    if let JsonSpec::Object(js) = spec_private_jwk(crv, public, private, kid, key_use) {
        assert forall|j: int| 0 <= j < 2 implies #[trigger] js[j].0 != "x"@ by {
            if j == 0 {
                assert("kty"@.len() != "x"@.len());
            } else {
                assert("crv"@.len() != "x"@.len());
            }
        }
        lemma_entries_get_at(js, "x"@, 2);
        assert forall|j: int| 0 <= j < 3 implies #[trigger] js[j].0 != "d"@ by {
            if j == 0 {
                assert("kty"@.len() != "d"@.len());
            } else if j == 1 {
                assert("crv"@.len() != "d"@.len());
            } else {
                assert("x"@[0] != "d"@[0]);
            }
        }
        lemma_entries_get_at(js, "d"@, 3);
    }
}

/// In the private keys document, each entry's `x` is the base64url
/// encoding of the public key its private key gives (Ed25519 for
/// `identity_key`, X25519 for `identity_dh` and `signed_prekey`), and its
/// `d` is the base64url encoding of the private key.
pub proof fn law_private_keys_document_fields(keys: PrivateKeysView)
    ensures
        ({
            let doc = spec_private_keys_document(keys);
            &&& field_text(json_index(doc, "identity_key"@), "x"@) == Some(
                spec_base64url_encode(spec_ed25519_public(keys.identity)),
            )
            &&& field_text(json_index(doc, "identity_key"@), "d"@) == Some(spec_base64url_encode(keys.identity))
            &&& field_text(json_index(doc, "identity_dh"@), "x"@) == Some(
                spec_base64url_encode(spec_x25519_public(keys.identity_dh)),
            )
            &&& field_text(json_index(doc, "identity_dh"@), "d"@) == Some(spec_base64url_encode(keys.identity_dh))
            &&& field_text(json_index(doc, "signed_prekey"@), "x"@) == Some(
                spec_base64url_encode(spec_x25519_public(keys.signed_pre_key)),
            )
            &&& field_text(json_index(doc, "signed_prekey"@), "d"@) == Some(
                spec_base64url_encode(keys.signed_pre_key),
            )
        }),
{
    reveal_strlit("identity_key");
    reveal_strlit("identity_dh");
    reveal_strlit("signed_prekey");
    lemma_private_jwk_fields("Ed25519"@, spec_ed25519_public(keys.identity), keys.identity, "identity-key"@, "sig"@);
    lemma_private_jwk_fields("X25519"@, spec_x25519_public(keys.identity_dh), keys.identity_dh, "identity-dh"@, "enc"@);
    lemma_private_jwk_fields(
        "X25519"@,
        spec_x25519_public(keys.signed_pre_key),
        keys.signed_pre_key,
        "signed-prekey"@,
        "enc"@,
    );
    if let JsonSpec::Object(es) = spec_private_keys_document(keys) {
        lemma_entries_get_at(es, "identity_key"@, 0);
        assert forall|j: int| 0 <= j < 1 implies #[trigger] es[j].0 != "identity_dh"@ by {
            assert("identity_key"@[9] != "identity_dh"@[9]);
        }
        lemma_entries_get_at(es, "identity_dh"@, 1);
        assert forall|j: int| 0 <= j < 2 implies #[trigger] es[j].0 != "signed_prekey"@ by {
            assert("identity_key"@[0] != "signed_prekey"@[0]);
            assert("identity_dh"@.len() != "signed_prekey"@.len());
        }
        lemma_entries_get_at(es, "signed_prekey"@, 2);
    }
}

/// Private keys read from a document are taken from each entry's `d`, and
/// each entry's `x` holds the public key that private key gives.
pub proof fn law_private_keys_read_from_d(doc: JsonSpec)
    requires
        spec_parse_private_keys(doc) is Ok,
    ensures
        ({
            let k = spec_parse_private_keys(doc)->Ok_0;
            &&& spec_field_key(json_index(doc, "identity_key"@), "d"@) == Ok::<Seq<u8>, SerializationErrorKind>(
                k.identity,
            )
            &&& spec_field_key(json_index(doc, "identity_key"@), "x"@) == Ok::<Seq<u8>, SerializationErrorKind>(
                spec_ed25519_public(k.identity),
            )
            &&& spec_field_key(json_index(doc, "identity_dh"@), "d"@) == Ok::<Seq<u8>, SerializationErrorKind>(
                k.identity_dh,
            )
            &&& spec_field_key(json_index(doc, "identity_dh"@), "x"@) == Ok::<Seq<u8>, SerializationErrorKind>(
                spec_x25519_public(k.identity_dh),
            )
            &&& spec_field_key(json_index(doc, "signed_prekey"@), "d"@) == Ok::<Seq<u8>, SerializationErrorKind>(
                k.signed_pre_key,
            )
            &&& spec_field_key(json_index(doc, "signed_prekey"@), "x"@) == Ok::<Seq<u8>, SerializationErrorKind>(
                spec_x25519_public(k.signed_pre_key),
            )
        }),
{
}

/// Whether two 32-byte keys are equal.
fn keys_equal(a: &[u8; 32], b: &[u8; 32]) -> (eq: bool)
    ensures
        eq == (a@ == b@),
{
    let mut i: usize = 0;
    while i < 32
        invariant
            i <= 32,
            forall|k: int| 0 <= k < i ==> a@[k] == b@[k],
        decreases 32 - i,
    {
        if a[i] != b[i] {
            return false;
        }
        i = i + 1;
    }
    assert(a@ =~= b@);
    true
}

/// The private `d` and public `x` keys of an entry.
fn key_pair(obj: Option<&JsonValue>) -> (r: Result<([u8; 32], [u8; 32]), SerializationError>)
    ensures
        match spec_key_pair(opt_view(obj)) {
            Ok((d, x)) => r matches Ok((rd, rx)) && rd@ == d && rx@ == x,
            Err(e) => r matches Err(re) && re.spec_kind() == e,
        },
{
    let private = match field_key(obj, "d") {
        Ok(k) => k,
        Err(e) => {
            return Err(e);
        },
    };
    let public = match field_key(obj, "x") {
        Ok(k) => k,
        Err(e) => {
            return Err(e);
        },
    };
    Ok((private, public))
}

/// `r` is the outcome `s` describes, for private keys.
pub open spec fn private_keys_result_is(
    r: Result<SyftPrivateKeys, SerializationError>,
    s: Result<PrivateKeysView, SerializationErrorKind>,
) -> bool {
    match s {
        Ok(k) => r matches Ok(v) && v@ == k,
        Err(e) => r matches Err(re) && re.spec_kind() == e,
    }
}

/// Read private keys from a JWKS-like document; each public key must match
/// its private key.
pub fn deserialize_private_keys(json: &JsonValue) -> (result: Result<SyftPrivateKeys, SerializationError>)
    ensures
        private_keys_result_is(result, spec_parse_private_keys(json@)),
{
    let identity_obj = json.get("identity_key");
    if identity_obj.is_none() {
        return Err(SerializationError::MissingIdentityKey);
    }
    let (identity_private, identity_public) = match key_pair(identity_obj) {
        Ok(p) => p,
        Err(e) => {
            return Err(e);
        },
    };
    let derived = ed25519_public_key(&identity_private);
    if !keys_equal(&derived, &identity_public) {
        return Err(SerializationError::InvalidSignature);
    }
    let identity_dh_obj = json.get("identity_dh");
    if identity_dh_obj.is_none() {
        return Err(SerializationError::MissingIdentityDhKey);
    }
    let (identity_dh_private, identity_dh_public) = match key_pair(identity_dh_obj) {
        Ok(p) => p,
        Err(e) => {
            return Err(e);
        },
    };
    let derived = x25519_public_key(&identity_dh_private);
    if !keys_equal(&derived, &identity_dh_public) {
        return Err(SerializationError::InvalidSignature);
    }
    let signed_prekey_obj = json.get("signed_prekey");
    if signed_prekey_obj.is_none() {
        return Err(SerializationError::MissingSignedPrekey);
    }
    let (signed_prekey_private, signed_prekey_public) = match key_pair(signed_prekey_obj) {
        Ok(p) => p,
        Err(e) => {
            return Err(e);
        },
    };
    let derived = x25519_public_key(&signed_prekey_private);
    if !keys_equal(&derived, &signed_prekey_public) {
        return Err(SerializationError::InvalidSignature);
    }
    Ok(SyftPrivateKeys::new(identity_private, identity_dh_private, signed_prekey_private))
}

} // verus!
