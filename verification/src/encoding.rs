//! Byte/text encodings used by the key formats: lowercase hex, URL-safe
//! unpadded base64 and SHA-256 digests.

use base64::Engine;
use sha2::Digest;
use vstd::prelude::*;

verus! {

// ----------------------------------------------------------------------
// Hex
// ----------------------------------------------------------------------

/// The lowercase hex digit for a nibble `n` (0..16).
pub open spec fn hex_digit(n: int) -> char {
    if n < 10 {
        (48 + n) as char
    } else {
        (87 + n) as char
    }
}

/// Whether `c` is an ASCII hex digit (either case).
pub open spec fn is_hex_char(c: char) -> bool {
    ('0' <= c && c <= '9') || ('a' <= c && c <= 'f') || ('A' <= c && c <= 'F')
}

/// The value of an ASCII hex digit.
pub open spec fn hex_value(c: char) -> int {
    if '0' <= c && c <= '9' {
        (c as int) - 48
    } else if 'a' <= c && c <= 'f' {
        (c as int) - 87
    } else {
        (c as int) - 55
    }
}

/// Lowercase hex encoding: two digits per byte, high nibble first.
pub open spec fn spec_hex_encode(bytes: Seq<u8>) -> Seq<char> {
    Seq::new(
        2 * bytes.len(),
        |i: int|
            if i % 2 == 0 {
                hex_digit(bytes[i / 2] as int / 16)
            } else {
                hex_digit(bytes[i / 2] as int % 16)
            },
    )
}

/// A string that hex-decodes: even length and hex digits only.
pub open spec fn is_hex_string(s: Seq<char>) -> bool {
    &&& s.len() % 2 == 0
    &&& forall|i: int| 0 <= i < s.len() ==> is_hex_char(#[trigger] s[i])
}

/// Hex decoding of a string that satisfies `is_hex_string`.
pub open spec fn spec_hex_decode(s: Seq<char>) -> Seq<u8> {
    Seq::new(
        s.len() / 2,
        |i: int| (hex_value(s[2 * i]) * 16 + hex_value(s[2 * i + 1])) as u8,
    )
}

pub proof fn lemma_hex_digit_roundtrip(n: int)
    requires
        0 <= n < 16,
    ensures
        is_hex_char(hex_digit(n)),
        hex_value(hex_digit(n)) == n,
        !(hex_digit(n) == '-'),
{
}

/// Hex encoding produces a hex string whose decoding is the input.
pub proof fn lemma_hex_roundtrip(bytes: Seq<u8>)
    ensures
        is_hex_string(spec_hex_encode(bytes)),
        spec_hex_decode(spec_hex_encode(bytes)) =~= bytes,
{
    let e = spec_hex_encode(bytes);
    assert forall|i: int| 0 <= i < e.len() implies is_hex_char(#[trigger] e[i]) by {
        let b = bytes[i / 2] as int;
        lemma_hex_digit_roundtrip(b / 16);
        lemma_hex_digit_roundtrip(b % 16);
    }
    assert forall|i: int| 0 <= i < bytes.len() implies #[trigger] spec_hex_decode(e)[i]
        == bytes[i] by {
        let b = bytes[i] as int;
        lemma_hex_digit_roundtrip(b / 16);
        lemma_hex_digit_roundtrip(b % 16);
        assert(e[2 * i] == hex_digit(b / 16));
        assert(e[2 * i + 1] == hex_digit(b % 16));
        assert((2 * i + 1) / 2 == i);
        assert((2 * i) / 2 == i);
    }
}

/// `hex::encode`: lowercase hex of the bytes.
#[verifier::external_body]
pub(crate) fn hex_encode(bytes: &[u8]) -> (text: String)
    ensures
        text@ == spec_hex_encode(bytes@),
{
    hex::encode(bytes)
}

/// `hex::decode`: succeeds exactly on strings of an even number of hex
/// digits, giving their bytes.
#[verifier::external_body]
pub(crate) fn hex_decode(text: &str) -> (bytes: Result<Vec<u8>, String>)
    ensures
        bytes is Ok <==> is_hex_string(text@),
        bytes matches Ok(v) ==> v@ == spec_hex_decode(text@),
{
    hex::decode(text).map_err(|e| e.to_string())
}

// ----------------------------------------------------------------------
// Base64 (URL-safe alphabet, no padding)
// ----------------------------------------------------------------------

/// What `URL_SAFE_NO_PAD.encode` gives for these bytes.
pub uninterp spec fn spec_base64url_encode(bytes: Seq<u8>) -> Seq<char>;

/// What `URL_SAFE_NO_PAD.decode` gives for this text (`None` on error).
pub uninterp spec fn spec_base64url_decode(text: Seq<char>) -> Option<Seq<u8>>;

/// `URL_SAFE_NO_PAD.encode`: the encoding, which decodes back to the input.
#[verifier::external_body]
pub(crate) fn base64url_encode(bytes: &[u8]) -> (text: String)
    ensures
        text@ == spec_base64url_encode(bytes@),
        spec_base64url_decode(text@) == Some(bytes@),
{
    base64::engine::general_purpose::URL_SAFE_NO_PAD.encode(bytes)
}

/// `URL_SAFE_NO_PAD.decode`: the decoded bytes, or the error's message.
#[verifier::external_body]
pub(crate) fn base64url_decode(text: &str) -> (bytes: Result<Vec<u8>, String>)
    ensures
        bytes is Ok <==> spec_base64url_decode(text@) is Some,
        bytes matches Ok(v) ==> spec_base64url_decode(text@) == Some(v@),
{
    base64::engine::general_purpose::URL_SAFE_NO_PAD.decode(text).map_err(|e| e.to_string())
}

// ----------------------------------------------------------------------
// SHA-256
// ----------------------------------------------------------------------

/// The SHA-256 digest of the bytes.
pub uninterp spec fn spec_sha256(bytes: Seq<u8>) -> Seq<u8>;

/// `Sha256::digest`: the 32-byte digest of the input.
#[verifier::external_body]
pub(crate) fn sha256(bytes: &[u8]) -> (digest: [u8; 32])
    ensures
        digest@ == spec_sha256(bytes@),
{
    sha2::Sha256::digest(bytes).into()
}

} // verus!
