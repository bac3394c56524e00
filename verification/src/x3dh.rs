//! X3DH key agreement.
//!
//! The sender (A) computes, with a fresh ephemeral key EK_A:
//! DH1 = DH(IK_A, SPK_B), DH2 = DH(EK_A, IK_B), DH3 = DH(EK_A, SPK_B);
//! the recipient (B) computes the same three values from its side:
//! DH(SPK_B, IK_A), DH(IK_B, EK_A), DH(SPK_B, EK_A). The shared material is
//! DH1 || DH2 || DH3 (96 bytes).

use crate::crypto::{random_bytes_32, spec_x25519_dh, spec_x25519_public, x25519_diffie_hellman, x25519_public_key};
use crate::encoding::{base64url_decode, base64url_encode, spec_base64url_decode, spec_base64url_encode};
use crate::error::KeyError;
use crate::keys::{
    spec_bundle_signatures_valid, spec_public_bundle, PrivateKeysView, PublicBundleView,
    SyftPrivateKeys, SyftPublicKeyBundle,
};
use vstd::prelude::*;

verus! {

/// Serialized X25519 public keys are 32 bytes.
pub const X25519_PUBLIC_KEY_LEN: usize = 32;

/// Wrapping metadata the sender passes to the recipient.
#[derive(Debug, Clone)]
pub struct WrappingInfo {
    pub recipient_identity: Option<String>,
    pub device_label: Option<String>,
    /// The sender's ephemeral X25519 public key, base64url without padding.
    pub wrap_ephemeral_public: String,
    pub wrap_ciphertext: String,
}

/// Every byte is zero.
pub open spec fn spec_all_zero(bytes: Seq<u8>) -> bool {
    forall|i: int| 0 <= i < bytes.len() ==> #[trigger] bytes[i] == 0
}

/// Whether every byte is zero.
pub fn is_all_zero(bytes: &[u8]) -> (zero: bool)
    ensures
        zero == spec_all_zero(bytes@),
{
    let mut acc: u8 = 0;
    let mut i: usize = 0;
    while i < bytes.len()
        invariant
            i <= bytes@.len(),
            (acc == 0) == (forall|j: int| 0 <= j < i ==> #[trigger] bytes@[j] == 0),
        decreases bytes@.len() - i,
    {
        let b = bytes[i];
        let old_acc = acc;
        acc = acc | b;
        assert((old_acc | b) == 0u8 <==> (old_acc == 0u8 && b == 0u8)) by (bit_vector);
        i = i + 1;
    }
    acc == 0
}

/// DH1 || DH2 || DH3 as the sender computes it, from its identity DH secret,
/// its ephemeral secret and the recipient's identity DH and signed prekey
/// public keys.
pub open spec fn spec_x3dh_material(
    sender_identity_dh: Seq<u8>,
    ephemeral: Seq<u8>,
    recipient_identity_dh_public: Seq<u8>,
    recipient_signed_prekey_public: Seq<u8>,
) -> Seq<u8> {
    spec_x25519_dh(sender_identity_dh, recipient_signed_prekey_public) + spec_x25519_dh(
        ephemeral,
        recipient_identity_dh_public,
    ) + spec_x25519_dh(ephemeral, recipient_signed_prekey_public)
}

/// The sender's outcome with the given ephemeral secret.
pub open spec fn spec_sender_outcome(
    sender: PrivateKeysView,
    recipient_bundle: PublicBundleView,
    ephemeral: Seq<u8>,
) -> Result<Seq<u8>, KeyError> {
    let dh1 = spec_x25519_dh(sender.identity_dh, recipient_bundle.signed_prekey_public_key);
    let dh2 = spec_x25519_dh(ephemeral, recipient_bundle.identity_dh_public_key);
    let dh3 = spec_x25519_dh(ephemeral, recipient_bundle.signed_prekey_public_key);
    if !spec_bundle_signatures_valid(recipient_bundle) {
        Err(KeyError::InvalidSignature)
    } else if spec_all_zero(dh1) || spec_all_zero(dh2) || spec_all_zero(dh3) {
        Err(KeyError::InvalidSharedSecret)
    } else {
        Ok(dh1 + dh2 + dh3)
    }
}

/// `result` is the sender's outcome with ephemeral secret `ephemeral`,
/// addressed to `recipient_identity`.
pub open spec fn sender_result_is(
    result: Result<(Vec<u8>, WrappingInfo), KeyError>,
    sender: PrivateKeysView,
    recipient_identity: Seq<char>,
    recipient_bundle: PublicBundleView,
    ephemeral: Seq<u8>,
) -> bool {
    match spec_sender_outcome(sender, recipient_bundle, ephemeral) {
        Ok(material) => result matches Ok((m, w)) && {
            &&& m@ == material
            &&& m@.len() == 96
            &&& w.recipient_identity matches Some(r) && r@ == recipient_identity
            &&& w.device_label matches Some(d) && d@ == "default"@
            &&& w.wrap_ephemeral_public@ == spec_base64url_encode(spec_x25519_public(ephemeral))
            &&& spec_base64url_decode(w.wrap_ephemeral_public@) == Some(spec_x25519_public(ephemeral))
            &&& spec_x25519_public(ephemeral).len() == 32
            &&& w.wrap_ciphertext@.len() == 0
        },
        Err(e) => result == Err::<(Vec<u8>, WrappingInfo), KeyError>(e),
    }
}

/// The three 32-byte DH outputs concatenated.
fn concat_dh(dh1: &[u8; 32], dh2: &[u8; 32], dh3: &[u8; 32]) -> (material: Vec<u8>)
    ensures
        material@ == dh1@ + dh2@ + dh3@,
{
    let mut material: Vec<u8> = Vec::new();
    let mut i: usize = 0;
    while i < 32
        invariant
            i <= 32,
            material@ == dh1@.take(i as int),
        decreases 32 - i,
    {
        material.push(dh1[i]);
        i = i + 1;
        assert(material@ =~= dh1@.take(i as int));
    }
    let mut i: usize = 0;
    while i < 32
        invariant
            i <= 32,
            material@ == dh1@ + dh2@.take(i as int),
        decreases 32 - i,
    {
        material.push(dh2[i]);
        i = i + 1;
        assert(material@ =~= dh1@ + dh2@.take(i as int));
    }
    let mut i: usize = 0;
    while i < 32
        invariant
            i <= 32,
            material@ == dh1@ + dh2@ + dh3@.take(i as int),
        decreases 32 - i,
    {
        material.push(dh3[i]);
        i = i + 1;
        assert(material@ =~= dh1@ + dh2@ + dh3@.take(i as int));
    }
    assert(dh1@.take(32) =~= dh1@);
    assert(dh2@.take(32) =~= dh2@);
    assert(dh3@.take(32) =~= dh3@);
    material
}

/// Sender-side X3DH with a given ephemeral secret.
pub fn derive_sender_shared_material_with_ephemeral(
    sender_keys: &SyftPrivateKeys,
    recipient_identity: &str,
    recipient_bundle: &SyftPublicKeyBundle,
    ephemeral: [u8; 32],
) -> (result: Result<(Vec<u8>, WrappingInfo), KeyError>)
    ensures
        sender_result_is(result, sender_keys@, recipient_identity@, recipient_bundle@, ephemeral@),
{
    if !recipient_bundle.verify_signatures() {
        return Err(KeyError::InvalidSignature);
    }
    let ephemeral_public = x25519_public_key(&ephemeral);
    let dh1 = x25519_diffie_hellman(sender_keys.identity_dh(), &recipient_bundle.signed_prekey_public_key);
    if is_all_zero(dh1.as_slice()) {
        return Err(KeyError::InvalidSharedSecret);
    }
    let dh2 = x25519_diffie_hellman(&ephemeral, &recipient_bundle.identity_dh_public_key);
    if is_all_zero(dh2.as_slice()) {
        return Err(KeyError::InvalidSharedSecret);
    }
    let dh3 = x25519_diffie_hellman(&ephemeral, &recipient_bundle.signed_prekey_public_key);
    if is_all_zero(dh3.as_slice()) {
        return Err(KeyError::InvalidSharedSecret);
    }
    let material = concat_dh(&dh1, &dh2, &dh3);
    let wrapping = WrappingInfo {
        recipient_identity: Some(recipient_identity.to_owned()),
        device_label: Some("default".to_owned()),
        wrap_ephemeral_public: base64url_encode(ephemeral_public.as_slice()),
        wrap_ciphertext: String::new(),
    };
    Ok((material, wrapping))
}

/// Sender-side X3DH: draws a fresh ephemeral secret, then agrees as
/// `derive_sender_shared_material_with_ephemeral` does with it.
pub fn derive_sender_shared_material(
    sender_keys: &SyftPrivateKeys,
    recipient_identity: &str,
    recipient_bundle: &SyftPublicKeyBundle,
) -> (result: Result<(Vec<u8>, WrappingInfo), KeyError>)
    ensures
        exists|ephemeral: Seq<u8>|
            ephemeral.len() == 32 && sender_result_is(
                result,
                sender_keys@,
                recipient_identity@,
                recipient_bundle@,
                ephemeral,
            ),
        !spec_bundle_signatures_valid(recipient_bundle@) ==> result == Err::<
            (Vec<u8>, WrappingInfo),
            KeyError,
        >(KeyError::InvalidSignature),
{
    if !recipient_bundle.verify_signatures() {
        let refused: Result<(Vec<u8>, WrappingInfo), KeyError> = Err(KeyError::InvalidSignature);
        let ghost any_ephemeral = Seq::new(32, |i: int| 0u8);
        assert(any_ephemeral.len() == 32);
        assert(sender_result_is(refused, sender_keys@, recipient_identity@, recipient_bundle@, any_ephemeral));
        return refused;
    }
    let ephemeral = random_bytes_32();
    let result = derive_sender_shared_material_with_ephemeral(
        sender_keys,
        recipient_identity,
        recipient_bundle,
        ephemeral,
    );
    assert(ephemeral@.len() == 32);
    assert(sender_result_is(result, sender_keys@, recipient_identity@, recipient_bundle@, ephemeral@));
    result
}

/// The recipient's outcome, given the sender's bundle and the encoded
/// ephemeral public key from the wrapping info.
pub open spec fn spec_recipient_outcome(
    recipient: PrivateKeysView,
    sender_bundle: PublicBundleView,
    wrap_ephemeral_public: Seq<char>,
) -> Result<Seq<u8>, KeyError> {
    if !spec_bundle_signatures_valid(sender_bundle) {
        Err(KeyError::InvalidSignature)
    } else {
        match spec_base64url_decode(wrap_ephemeral_public) {
            None => Err(KeyError::InvalidFormat),
            Some(ephemeral_public) => if ephemeral_public.len() != 32 {
                Err(KeyError::InvalidFormat)
            } else {
                let dh1 = spec_x25519_dh(recipient.signed_pre_key, sender_bundle.identity_dh_public_key);
                let dh2 = spec_x25519_dh(recipient.identity_dh, ephemeral_public);
                let dh3 = spec_x25519_dh(recipient.signed_pre_key, ephemeral_public);
                if spec_all_zero(dh1) || spec_all_zero(dh2) || spec_all_zero(dh3) {
                    Err(KeyError::InvalidSharedSecret)
                } else {
                    Ok(dh1 + dh2 + dh3)
                }
            },
        }
    }
}

/// The sender's identity DH secret and ephemeral secret are the ones
/// behind the sender's bundle and the wrapping's ephemeral public key.
pub open spec fn sender_secrets_match(
    sender_bundle: PublicBundleView,
    wrap_ephemeral_public: Seq<char>,
    sender_identity_dh: Seq<u8>,
    ephemeral: Seq<u8>,
) -> bool {
    &&& sender_identity_dh.len() == 32
    &&& ephemeral.len() == 32
    &&& sender_bundle.identity_dh_public_key == spec_x25519_public(sender_identity_dh)
    &&& spec_base64url_decode(wrap_ephemeral_public) == Some(spec_x25519_public(ephemeral))
}

/// None of the three DH outputs of the material is all zero.
pub open spec fn x3dh_parts_nonzero(
    sender_identity_dh: Seq<u8>,
    ephemeral: Seq<u8>,
    recipient_identity_dh_public: Seq<u8>,
    recipient_signed_prekey_public: Seq<u8>,
) -> bool {
    &&& !spec_all_zero(spec_x25519_dh(sender_identity_dh, recipient_signed_prekey_public))
    &&& !spec_all_zero(spec_x25519_dh(ephemeral, recipient_identity_dh_public))
    &&& !spec_all_zero(spec_x25519_dh(ephemeral, recipient_signed_prekey_public))
}

/// Recipient-side X3DH.
///
/// Whenever the sender bundle's identity DH key belongs to a secret
/// `sender_identity_dh` and the wrapping carries the public key of an
/// ephemeral secret `ephemeral`, the recipient agrees with the sender: it
/// succeeds when the bundle's signatures hold and the sender's three DH
/// outputs are not all zero (exactly when the sender succeeded), and its
/// material is the one the sender computed with those secrets against this
/// recipient's public keys.
pub fn derive_recipient_shared_material(
    recipient_keys: &SyftPrivateKeys,
    sender_bundle: &SyftPublicKeyBundle,
    wrapping: &WrappingInfo,
) -> (result: Result<Vec<u8>, KeyError>)
    ensures
        match spec_recipient_outcome(recipient_keys@, sender_bundle@, wrapping.wrap_ephemeral_public@) {
            Ok(material) => result matches Ok(m) && m@ == material && m@.len() == 96,
            Err(e) => result == Err::<Vec<u8>, KeyError>(e),
        },
        forall|sender_identity_dh: Seq<u8>, ephemeral: Seq<u8>|
            #[trigger] sender_secrets_match(
                sender_bundle@,
                wrapping.wrap_ephemeral_public@,
                sender_identity_dh,
                ephemeral,
            ) ==> {
                &&& (result matches Ok(m) ==> m@ == spec_x3dh_material(
                    sender_identity_dh,
                    ephemeral,
                    spec_x25519_public(recipient_keys@.identity_dh),
                    spec_x25519_public(recipient_keys@.signed_pre_key),
                ))
                &&& (spec_bundle_signatures_valid(sender_bundle@) && spec_x25519_public(ephemeral).len()
                    == 32 && x3dh_parts_nonzero(
                    sender_identity_dh,
                    ephemeral,
                    spec_x25519_public(recipient_keys@.identity_dh),
                    spec_x25519_public(recipient_keys@.signed_pre_key),
                ) ==> result is Ok)
            },
{
    let ghost ik_b = spec_x25519_public(recipient_keys@.identity_dh);
    let ghost spk_b = spec_x25519_public(recipient_keys@.signed_pre_key);
    let ghost wrap = wrapping.wrap_ephemeral_public@;
    if !sender_bundle.verify_signatures() {
        return Err(KeyError::InvalidSignature);
    }
    let ephemeral_bytes = match base64url_decode(wrapping.wrap_ephemeral_public.as_str()) {
        Ok(bytes) => bytes,
        Err(_) => {
            assert forall|a: Seq<u8>, e: Seq<u8>|
                #[trigger] sender_secrets_match(sender_bundle@, wrap, a, e) implies false by {}
            return Err(KeyError::InvalidFormat);
        },
    };
    if ephemeral_bytes.len() != X25519_PUBLIC_KEY_LEN {
        assert forall|a: Seq<u8>, e: Seq<u8>|
            #[trigger] sender_secrets_match(sender_bundle@, wrap, a, e) implies spec_x25519_public(e).len()
            != 32 by {}
        return Err(KeyError::InvalidFormat);
    }
    let mut ephemeral_public = [0u8; 32];
    let mut i: usize = 0;
    while i < 32
        invariant
            ephemeral_bytes@.len() == 32,
            i <= 32,
            forall|k: int| 0 <= k < i ==> ephemeral_public@[k] == ephemeral_bytes@[k],
        decreases 32 - i,
    {
        ephemeral_public[i] = ephemeral_bytes[i];
        i = i + 1;
    }
    assert(ephemeral_public@ =~= ephemeral_bytes@);
    let dh1 = x25519_diffie_hellman(recipient_keys.signed_pre_key(), &sender_bundle.identity_dh_public_key);
    assert forall|a: Seq<u8>, e: Seq<u8>|
        #[trigger] sender_secrets_match(sender_bundle@, wrap, a, e) implies dh1@ == spec_x25519_dh(a, spk_b) by {
        assert(sender_bundle@.identity_dh_public_key == spec_x25519_public(a));
    }
    if is_all_zero(dh1.as_slice()) {
        return Err(KeyError::InvalidSharedSecret);
    }
    let dh2 = x25519_diffie_hellman(recipient_keys.identity_dh(), &ephemeral_public);
    assert forall|a: Seq<u8>, e: Seq<u8>|
        #[trigger] sender_secrets_match(sender_bundle@, wrap, a, e) implies dh2@ == spec_x25519_dh(e, ik_b) by {
        assert(ephemeral_public@ == spec_x25519_public(e));
    }
    if is_all_zero(dh2.as_slice()) {
        return Err(KeyError::InvalidSharedSecret);
    }
    let dh3 = x25519_diffie_hellman(recipient_keys.signed_pre_key(), &ephemeral_public);
    assert forall|a: Seq<u8>, e: Seq<u8>|
        #[trigger] sender_secrets_match(sender_bundle@, wrap, a, e) implies dh3@ == spec_x25519_dh(e, spk_b) by {
        assert(ephemeral_public@ == spec_x25519_public(e));
    }
    if is_all_zero(dh3.as_slice()) {
        return Err(KeyError::InvalidSharedSecret);
    }
    let material = concat_dh(&dh1, &dh2, &dh3);
    Ok(material)
}

/// X3DH agreement, the sender's half: when the sender succeeds against the
/// recipient's published bundle, its own published bundle and its wrapping
/// carry its secrets, none of the three DH outputs is all zero, and its
/// material is the X3DH material of those secrets against the recipient's
/// public keys. By the contract of `derive_recipient_shared_material`, the
/// recipient given that bundle (with valid signatures) and wrapping then
/// succeeds with the same material.
pub proof fn law_x3dh_sender_material_is_recipient_material(
    sender: PrivateKeysView,
    recipient: PrivateKeysView,
    ephemeral: Seq<u8>,
    wrap_ephemeral_public: Seq<char>,
)
    requires
        sender.identity_dh.len() == 32,
        ephemeral.len() == 32,
        spec_sender_outcome(sender, spec_public_bundle(recipient), ephemeral) is Ok,
        spec_base64url_decode(wrap_ephemeral_public) == Some(spec_x25519_public(ephemeral)),
    ensures
        sender_secrets_match(
            spec_public_bundle(sender),
            wrap_ephemeral_public,
            sender.identity_dh,
            ephemeral,
        ),
        x3dh_parts_nonzero(
            sender.identity_dh,
            ephemeral,
            spec_x25519_public(recipient.identity_dh),
            spec_x25519_public(recipient.signed_pre_key),
        ),
        spec_sender_outcome(sender, spec_public_bundle(recipient), ephemeral) == Ok::<Seq<u8>, KeyError>(
            spec_x3dh_material(
                sender.identity_dh,
                ephemeral,
                spec_x25519_public(recipient.identity_dh),
                spec_x25519_public(recipient.signed_pre_key),
            ),
        ),
{
}

} // verus!
