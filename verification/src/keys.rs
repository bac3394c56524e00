//! Key structures of the protocol:
//! - `SyftRecoveryKey`: the 32-byte master secret all private keys derive from;
//! - `SyftPrivateKeys`: the Ed25519 identity seed and the X25519 identity-DH
//!   and signed-prekey secrets;
//! - `SyftPublicKeyBundle`: the public keys and the identity signatures over
//!   the two X25519 public keys.

use crate::crypto::{
    bip39_entropy, bip39_phrase, ed25519_key_is_valid, ed25519_public_key, ed25519_sign,
    ed25519_verify_strict, hkdf_sha256_expand32, random_bytes_32, spec_bip39_entropy,
    spec_bip39_phrase, spec_ed25519_key_valid, spec_ed25519_public, spec_ed25519_sign,
    spec_ed25519_verify_strict, spec_hkdf_sha256_32, spec_x25519_public, x25519_public_key,
};
use crate::encoding::{
    hex_decode, hex_encode, hex_value, is_hex_char, lemma_hex_roundtrip, sha256, spec_hex_decode, spec_hex_encode, spec_sha256,
};
use crate::error::{KeyError, RecoveryError};
use crate::text::{
    ascii_upper, chars_of, is_single_spaced_lowercase, join_spaced, lemma_lowercase_words_of_upper,
    lemma_single_spaced_is_normal, lemma_single_spaced_joins_back, push_char, split_whitespace, spec_to_lowercase, to_lowercase,
    upper_ascii, ws_words,
};
use vstd::prelude::*;
use vstd::string::*;

verus! {

// ----------------------------------------------------------------------
// Fingerprints
// ----------------------------------------------------------------------

/// Lowercase hex of the SHA-256 digest of the key bytes.
pub open spec fn spec_key_fingerprint(key_bytes: Seq<u8>) -> Seq<char> {
    spec_hex_encode(spec_sha256(key_bytes))
}

/// SHA-256 fingerprint of any public key bytes, as 64 lowercase hex digits.
pub fn compute_key_fingerprint(key_bytes: &[u8]) -> (fingerprint: String)
    ensures
        fingerprint@ == spec_key_fingerprint(key_bytes@),
        fingerprint@.len() == 64,
{
    let digest = sha256(key_bytes);
    hex_encode(digest.as_slice())
}

/// SHA-256 fingerprint of an Ed25519 identity (verifying) key.
pub fn compute_identity_fingerprint(identity_key: &[u8; 32]) -> (fingerprint: String)
    ensures
        fingerprint@ == spec_key_fingerprint(identity_key@),
        fingerprint@.len() == 64,
{
    compute_key_fingerprint(identity_key.as_slice())
}

// ----------------------------------------------------------------------
// Entropy check
// ----------------------------------------------------------------------

/// The number of byte values below `n` that occur in `bytes`.
pub open spec fn values_present(bytes: Seq<u8>, n: int) -> int
    decreases n,
{
    if n <= 0 {
        0
    } else {
        values_present(bytes, n - 1) + if bytes.contains((n - 1) as u8) {
            1int
        } else {
            0int
        }
    }
}

/// A recovery key must use at least 16 distinct byte values.
pub open spec fn spec_has_min_entropy(bytes: Seq<u8>) -> bool {
    values_present(bytes, 256) >= 16
}

proof fn lemma_values_present_monotone(bytes: Seq<u8>, m: int, n: int)
    requires
        0 <= m <= n,
    ensures
        values_present(bytes, m) <= values_present(bytes, n),
    decreases n - m,
{
    if m < n {
        lemma_values_present_monotone(bytes, m, n - 1);
    }
}

/// When every byte equals `x`, at most one value occurs.
proof fn lemma_values_present_constant(bytes: Seq<u8>, x: u8, n: int)
    requires
        0 <= n <= 256,
        forall|i: int| 0 <= i < bytes.len() ==> bytes[i] == x,
    ensures
        values_present(bytes, n) <= (if (x as int) < n {
            1int
        } else {
            0int
        }),
    decreases n,
{
    if n > 0 {
        lemma_values_present_constant(bytes, x, n - 1);
        if bytes.contains((n - 1) as u8) {
            let j = choose|j: int| 0 <= j < bytes.len() && bytes[j] == (n - 1) as u8;
            assert(bytes[j] == x);
        }
    }
}

/// When `bytes[v] == v` for every `v < 16`, all of 0..16 occur.
proof fn lemma_values_present_identity_prefix(bytes: Seq<u8>, n: int)
    requires
        0 <= n <= 16,
        bytes.len() >= 16,
        forall|v: int| 0 <= v < 16 ==> bytes[v] == v as u8,
    ensures
        values_present(bytes, n) == n,
    decreases n,
{
    if n > 0 {
        lemma_values_present_identity_prefix(bytes, n - 1);
        assert(bytes[n - 1] == (n - 1) as u8);
        assert(bytes.contains((n - 1) as u8));
    }
}

/// Whether the 32 bytes hold at least 16 distinct values.
///
/// All-zero keys and keys repeating one byte are rejected first.
pub fn has_min_entropy(bytes: &[u8; 32]) -> (ok: bool)
    ensures
        ok == spec_has_min_entropy(bytes@),
{
    let ghost b = bytes@;
    // All zero?
    let mut all_zero = true;
    let mut i: usize = 0;
    while i < 32
        invariant
            b == bytes@,
            b.len() == 32,
            i <= 32,
            all_zero == (forall|j: int| 0 <= j < i ==> b[j] == 0),
        decreases 32 - i,
    {
        if bytes[i] != 0 {
            all_zero = false;
        }
        i = i + 1;
    }
    if all_zero {
        proof {
            lemma_values_present_constant(b, 0, 256);
        }
        return false;
    }
    // Every byte equal to its successor?

    let mut all_same = true;
    let mut i: usize = 0;
    while i < 31
        invariant
            b == bytes@,
            b.len() == 32,
            i <= 31,
            all_same == (forall|j: int| 0 <= j < i ==> #[trigger] b[j] == b[j + 1]),
        decreases 31 - i,
    {
        if bytes[i] != bytes[i + 1] {
            all_same = false;
        }
        i = i + 1;
    }
    if all_same {
        proof {
            assert forall|j: int| 0 <= j < 32 implies #[trigger] b[j] == b[0] by {
                lemma_chain_equal(b, j);
            }
            lemma_values_present_constant(b, b[0], 256);
        }
        return false;
    }
    // Count the distinct values.

    let mut seen = [false; 256];
    let mut i: usize = 0;
    while i < 32
        invariant
            b == bytes@,
            b.len() == 32,
            i <= 32,
            seen@.len() == 256,
            forall|v: int| 0 <= v < 256 ==> seen@[v] == b.take(i as int).contains(v as u8),
        decreases 32 - i,
    {
        let byte = bytes[i];
        seen[byte as usize] = true;
        proof {
            let prev = b.take(i as int);
            let next = b.take(i + 1);
            assert(next =~= prev.push(byte));
            assert forall|v: int| 0 <= v < 256 implies seen@[v] == next.contains(v as u8) by {
                if prev.contains(v as u8) {
                    let k = choose|k: int| 0 <= k < prev.len() && prev[k] == v as u8;
                    assert(next[k] == v as u8);
                }
                if v == byte as int {
                    assert(next[i as int] == byte);
                } else if next.contains(v as u8) {
                    let k = choose|k: int| 0 <= k < next.len() && next[k] == v as u8;
                    assert(k < i);
                    assert(prev[k] == v as u8);
                }
            }
        }
        i = i + 1;
    }
    assert(b.take(32) =~= b);
    let mut count: usize = 0;
    let mut v: usize = 0;
    while v < 256
        invariant
            b == bytes@,
            v <= 256,
            seen@.len() == 256,
            forall|w: int| 0 <= w < 256 ==> seen@[w] == b.contains(w as u8),
            count as int == values_present(b, v as int),
            count <= v,
        decreases 256 - v,
    {
        if seen[v] {
            count = count + 1;
        }
        v = v + 1;
    }
    count >= 16
}

proof fn lemma_chain_equal(b: Seq<u8>, j: int)
    requires
        b.len() == 32,
        0 <= j < 32,
        forall|k: int| 0 <= k < 31 ==> #[trigger] b[k] == b[k + 1],
    ensures
        b[j] == b[0],
    decreases j,
{
    if j > 0 {
        lemma_chain_equal(b, j - 1);
        assert(b[j - 1] == b[j]);
    }
}

// ----------------------------------------------------------------------
// Recovery key
// ----------------------------------------------------------------------

/// Characters that may separate the groups of a written recovery key.
pub open spec fn is_key_separator(c: char) -> bool {
    c == '-' || c == ' ' || c == '\n' || c == '\r' || c == '\t'
}

/// The first character of `s` that is neither a hex digit nor a separator.
pub open spec fn first_unexpected_char(s: Seq<char>) -> Option<char>
    decreases s.len(),
{
    if s.len() == 0 {
        None
    } else {
        match first_unexpected_char(s.drop_last()) {
            Some(c) => Some(c),
            None => if !is_hex_char(s.last()) && !is_key_separator(s.last()) {
                Some(s.last())
            } else {
                None
            },
        }
    }
}

/// The hex digits of `s`, in order.
pub open spec fn hex_digits_of(s: Seq<char>) -> Seq<char>
    decreases s.len(),
{
    if s.len() == 0 {
        s
    } else if is_hex_char(s.last()) {
        hex_digits_of(s.drop_last()).push(s.last())
    } else {
        hex_digits_of(s.drop_last())
    }
}

/// Why a recovery key could not be read (the spec-level counterpart of
/// `RecoveryError`, without messages).
#[derive(Debug, Clone, Copy, PartialEq, Eq, Structural)]
pub enum RecoveryFailure {
    InvalidHex(char),
    InvalidLength(usize, usize),
    InsufficientEntropy,
    Mnemonic,
}

/// The message of `RecoveryError::InvalidHex` for an unexpected character.
pub open spec fn unexpected_char_message(c: char) -> Seq<char> {
    "unexpected character '"@ + seq![c] + "' in recovery key"@
}

/// `error` is the error that `failure` describes.
pub open spec fn error_describes(error: RecoveryError, failure: RecoveryFailure) -> bool {
    match failure {
        RecoveryFailure::InvalidHex(c) => error matches RecoveryError::InvalidHex(m) && m@
            == unexpected_char_message(c),
        RecoveryFailure::InvalidLength(e, a) => error matches RecoveryError::InvalidLength {
            expected,
            actual,
        } && expected == e && actual == a,
        RecoveryFailure::InsufficientEntropy => error is InsufficientEntropy,
        RecoveryFailure::Mnemonic => error is MnemonicError,
    }
}

/// `result` is the outcome `expected` describes.
pub open spec fn recovery_result_is(
    result: Result<SyftRecoveryKey, RecoveryError>,
    expected: Result<Seq<u8>, RecoveryFailure>,
) -> bool {
    match expected {
        Ok(bytes) => result matches Ok(key) && key@ == bytes,
        Err(failure) => result matches Err(e) && error_describes(e, failure),
    }
}

/// Reading a recovery key from text: separators (`-`, space, newline,
/// carriage return, tab) are ignored, any other non-hex character is
/// rejected, and the 64 hex digits must decode to a key with enough entropy.
pub open spec fn spec_parse_recovery_hex(s: Seq<char>) -> Result<Seq<u8>, RecoveryFailure> {
    match first_unexpected_char(s) {
        Some(c) => Err(RecoveryFailure::InvalidHex(c)),
        None => {
            let digits = hex_digits_of(s);
            if digits.len() != 64 {
                Err(RecoveryFailure::InvalidLength(64, digits.len() as usize))
            } else if !spec_has_min_entropy(spec_hex_decode(digits)) {
                Err(RecoveryFailure::InsufficientEntropy)
            } else {
                Ok(spec_hex_decode(digits))
            }
        },
    }
}

/// `s` in groups of four characters joined by dashes (for lengths that are
/// multiples of four).
pub open spec fn dash_groups(s: Seq<char>) -> Seq<char>
    decreases s.len(),
{
    if s.len() <= 4 {
        s
    } else {
        dash_groups(s.take(s.len() - 4)) + seq!['-'] + s.skip(s.len() - 4)
    }
}

/// The written form of a recovery key: 16 dash-separated groups of four
/// lowercase hex digits.
pub open spec fn spec_recovery_hex_string(key: Seq<u8>) -> Seq<char> {
    dash_groups(spec_hex_encode(key))
}

/// Each whitespace-separated word of the phrase, lowercased.
pub open spec fn lower_words(words: Seq<Seq<char>>) -> Seq<Seq<char>> {
    Seq::new(words.len(), |i: int| spec_to_lowercase(words[i]))
}

/// The phrase as given to BIP39: lowercased words joined by single spaces.
pub open spec fn spec_normalize_phrase(phrase: Seq<char>) -> Seq<char> {
    join_spaced(lower_words(ws_words(phrase)))
}

/// Reading a recovery key from a BIP39 phrase.
pub open spec fn spec_parse_mnemonic(phrase: Seq<char>) -> Result<Seq<u8>, RecoveryFailure> {
    match spec_bip39_entropy(spec_normalize_phrase(phrase)) {
        None => Err(RecoveryFailure::Mnemonic),
        Some(e) => if e.len() != 32 {
            Err(RecoveryFailure::InvalidLength(32, e.len() as usize))
        } else if !spec_has_min_entropy(e) {
            Err(RecoveryFailure::InsufficientEntropy)
        } else {
            Ok(e)
        },
    }
}

/// HKDF info label of the Ed25519 identity signing seed.
pub open spec fn identity_signing_info() -> Seq<u8> {
    "SyftBox_Identity_Signing_Key_v1".spec_bytes()
}

/// HKDF info label of the X25519 identity DH secret.
pub open spec fn identity_dh_info() -> Seq<u8> {
    "SyftBox_Identity_DH_Key_v1".spec_bytes()
}

/// HKDF info label of the X25519 signed prekey secret.
pub open spec fn signed_prekey_info() -> Seq<u8> {
    "SyftBox_Signed_Prekey_v1".spec_bytes()
}

/// The private keys a recovery key derives.
pub open spec fn spec_derive_keys(key: Seq<u8>) -> PrivateKeysView {
    PrivateKeysView {
        identity: spec_hkdf_sha256_32(key, identity_signing_info()),
        identity_dh: spec_hkdf_sha256_32(key, identity_dh_info()),
        signed_pre_key: spec_hkdf_sha256_32(key, signed_prekey_info()),
    }
}

/// 32-byte recovery key that deterministically derives all private keys.
///
/// Every value of this type has at least 16 distinct byte values.
pub struct SyftRecoveryKey([u8; 32]);

impl View for SyftRecoveryKey {
    type V = Seq<u8>;

    closed spec fn view(&self) -> Seq<u8> {
        self.0@
    }
}

/// Whether `c` is an ASCII hex digit.
pub fn is_hex_digit(c: char) -> (b: bool)
    ensures
        b == is_hex_char(c),
{
    ('0' <= c && c <= '9') || ('a' <= c && c <= 'f') || ('A' <= c && c <= 'F')
}

impl SyftRecoveryKey {
    #[verifier::type_invariant]
    spec fn well_formed(self) -> bool {
        spec_has_min_entropy(self.0@)
    }

    /// Generate a new random recovery key.
    ///
    /// Random candidates are drawn until one has enough distinct byte values.
    /// Should 2^64 - 1 candidates all fail, the first 16 bytes of a last
    /// candidate are set to 0..16.
    pub fn generate() -> (key: Self)
        ensures
            spec_has_min_entropy(key@),
    {
        let mut attempts: u64 = 0;
        while attempts < u64::MAX
            decreases u64::MAX - attempts,
        {
            let candidate = random_bytes_32();
            if has_min_entropy(&candidate) {
                return SyftRecoveryKey(candidate);
            }
            attempts = attempts + 1;
        }
        let mut bytes = random_bytes_32();
        let mut i: usize = 0;
        while i < 16
            invariant
                i <= 16,
                forall|v: int| 0 <= v < i ==> bytes@[v] == v as u8,
            decreases 16 - i,
        {
            bytes[i] = i as u8;
            i = i + 1;
        }
        proof {
            lemma_values_present_identity_prefix(bytes@, 16);
            lemma_values_present_monotone(bytes@, 16, 256);
        }
        SyftRecoveryKey(bytes)
    }

    /// Written form: 16 groups of four hex digits joined by dashes.
    pub fn to_hex_string(&self) -> (text: String)
        ensures
            text@ == spec_recovery_hex_string(self@),
            spec_parse_recovery_hex(text@) == Ok::<Seq<u8>, RecoveryFailure>(self@),
    {
        proof {
            use_type_invariant(self);
            law_recovery_hex_roundtrip(self@);
        }
        let hex = hex_encode(self.0.as_slice());
        let cs = chars_of(hex.as_str());
        let ghost h = cs@;
        let mut out = String::new();
        let mut g: usize = 0;
        while g < 16
            invariant
                h == cs@,
                h.len() == 64,
                g <= 16,
                g == 0 ==> out@.len() == 0,
                g > 0 ==> out@ == dash_groups(h.take(4 * g as int)),
            decreases 16 - g,
        {
            let ghost before = out@;
            if g > 0 {
                push_char(&mut out, '-');
            }
            push_char(&mut out, cs[4 * g]);
            push_char(&mut out, cs[4 * g + 1]);
            push_char(&mut out, cs[4 * g + 2]);
            push_char(&mut out, cs[4 * g + 3]);
            proof {
                let next = h.take(4 * g + 4);
                let group = h.subrange(4 * g as int, 4 * g + 4);
                if g == 0 {
                    assert(out@ =~= next);
                } else {
                    assert(next.take(next.len() - 4) =~= h.take(4 * g as int));
                    assert(next.skip(next.len() - 4) =~= group);
                    assert(out@ =~= before + seq!['-'] + group);
                }
            }
            g = g + 1;
        }
        assert(h.take(64) =~= h);
        out
    }

    /// Parse from hex text; dashes and whitespace separators are ignored.
    pub fn from_hex_string(s: &str) -> (result: Result<Self, RecoveryError>)
        ensures
            recovery_result_is(result, spec_parse_recovery_hex(s@)),
    {
        let cs = chars_of(s);
        let mut cleaned = String::new();
        let mut count: usize = 0;
        let mut i: usize = 0;
        while i < cs.len()
            invariant
                cs@ == s@,
                i <= cs.len(),
                first_unexpected_char(s@.take(i as int)) is None,
                cleaned@ == hex_digits_of(s@.take(i as int)),
                count == cleaned@.len(),
                count <= i,
            decreases cs.len() - i,
        {
            let ch = cs[i];
            let ghost prev = s@.take(i as int);
            let ghost next = s@.take(i + 1);
            assert(next.drop_last() =~= prev);
            assert(next.last() == ch);
            if is_hex_digit(ch) {
                push_char(&mut cleaned, ch);
                count = count + 1;
            } else if ch == '-' || ch == ' ' || ch == '\n' || ch == '\r' || ch == '\t' {
            } else {
                let mut message = "unexpected character '".to_owned();
                push_char(&mut message, ch);
                message.append("' in recovery key");
                proof {
                    lemma_first_unexpected_prefix(s@, i as int + 1);
                    assert(message@ =~= unexpected_char_message(ch));
                }
                return Err(RecoveryError::InvalidHex(message));
            }
            i = i + 1;
        }
        assert(s@.take(cs.len() as int) =~= s@);
        if count != 64 {
            return Err(RecoveryError::InvalidLength { expected: 64, actual: count });
        }
        proof {
            lemma_hex_digits_are_hex(s@);
        }
        let decoded = match hex_decode(cleaned.as_str()) {
            Ok(v) => v,
            Err(message) => {
                return Err(RecoveryError::InvalidHex(message));
            },
        };
        let mut key = [0u8; 32];
        let mut j: usize = 0;
        while j < 32
            invariant
                decoded@.len() == 32,
                j <= 32,
                forall|k: int| 0 <= k < j ==> key@[k] == decoded@[k],
            decreases 32 - j,
        {
            key[j] = decoded[j];
            j = j + 1;
        }
        assert(key@ =~= decoded@);
        if !has_min_entropy(&key) {
            return Err(RecoveryError::InsufficientEntropy);
        }
        Ok(SyftRecoveryKey(key))
    }

    /// The 24-word English BIP39 phrase of the key.
    ///
    /// Reading the phrase back with `from_mnemonic` gives this key.
    pub fn to_mnemonic(&self) -> (phrase: String)
        ensures
            phrase@ == spec_bip39_phrase(self@),
            is_single_spaced_lowercase(phrase@),
            ws_words(phrase@).len() == 24,
            spec_parse_mnemonic(phrase@) == Ok::<Seq<u8>, RecoveryFailure>(self@),
            forall|p: Seq<char>|
                #[trigger] spec_normalize_phrase(p) == phrase@ ==> spec_parse_mnemonic(p) == Ok::<
                    Seq<u8>,
                    RecoveryFailure,
                >(self@),
    {
        proof {
            use_type_invariant(self);
        }
        match bip39_phrase(&self.0) {
            Ok(phrase) => {
                proof {
                    lemma_single_spaced_is_normal(phrase@);
                    assert(lower_words(ws_words(phrase@)) =~= Seq::new(
                        ws_words(phrase@).len(),
                        |i: int| spec_to_lowercase(ws_words(phrase@)[i]),
                    ));
                }
                phrase
            },
            Err(_) => String::new(),
        }
    }

    /// Parse a BIP39 phrase (any case, any whitespace between words).
    pub fn from_mnemonic(phrase: &str) -> (result: Result<Self, RecoveryError>)
        ensures
            recovery_result_is(result, spec_parse_mnemonic(phrase@)),
    {
        let words = split_whitespace(phrase);
        let ghost lw = lower_words(ws_words(phrase@));
        let mut normalized = String::new();
        let mut i: usize = 0;
        while i < words.len()
            invariant
                words@.len() == ws_words(phrase@).len(),
                forall|k: int| 0 <= k < words@.len() ==> #[trigger] words@[k]@ == ws_words(phrase@)[k],
                lw == lower_words(ws_words(phrase@)),
                i <= words.len(),
                normalized@ == join_spaced(lw.take(i as int)),
            decreases words.len() - i,
        {
            let ghost before = normalized@;
            if i > 0 {
                push_char(&mut normalized, ' ');
            }
            let lowered = to_lowercase(words[i].as_str());
            normalized.append(lowered.as_str());
            proof {
                let next = lw.take(i + 1);
                assert(next.drop_last() =~= lw.take(i as int));
                assert(next.last() == lw[i as int]);
                if i == 0 {
                    assert(normalized@ =~= next[0]);
                } else {
                    assert(normalized@ =~= before + seq![' '] + next.last());
                }
            }
            i = i + 1;
        }
        assert(lw.take(words.len() as int) =~= lw);
        let entropy = match bip39_entropy(normalized.as_str()) {
            Ok(e) => e,
            Err(message) => {
                return Err(RecoveryError::MnemonicError(message));
            },
        };
        if entropy.len() != 32 {
            return Err(RecoveryError::InvalidLength { expected: 32, actual: entropy.len() });
        }
        let mut key = [0u8; 32];
        let mut j: usize = 0;
        while j < 32
            invariant
                entropy@.len() == 32,
                j <= 32,
                forall|k: int| 0 <= k < j ==> key@[k] == entropy@[k],
            decreases 32 - j,
        {
            key[j] = entropy[j];
            j = j + 1;
        }
        assert(key@ =~= entropy@);
        if !has_min_entropy(&key) {
            return Err(RecoveryError::InsufficientEntropy);
        }
        Ok(SyftRecoveryKey(key))
    }

    /// The debug rendering of the key, which shows only its first four
    /// bytes: `SyftRecoveryKey { first_4_bytes: "<8 hex digits>", remaining:
    /// "<redacted 28 bytes>" }`.
    pub fn debug_string(&self) -> (s: String)
        ensures
            s@ == "SyftRecoveryKey { first_4_bytes: \""@ + spec_hex_encode(self@.take(4))
                + "\", remaining: \"<redacted 28 bytes>\" }"@,
    {
        let mut head: Vec<u8> = Vec::new();
        head.push(self.0[0]);
        head.push(self.0[1]);
        head.push(self.0[2]);
        head.push(self.0[3]);
        assert(head@ =~= self@.take(4));
        let hex = hex_encode(head.as_slice());
        let mut s = "SyftRecoveryKey { first_4_bytes: \"".to_owned();
        s.append(hex.as_str());
        s.append("\", remaining: \"<redacted 28 bytes>\" }");
        s
    }

    /// The raw key bytes.
    pub fn as_bytes(&self) -> (bytes: &[u8; 32])
        ensures
            bytes@ == self@,
            spec_has_min_entropy(bytes@),
    {
        proof {
            use_type_invariant(self);
        }
        &self.0
    }

    /// Derive all private keys with HKDF-SHA256 (deterministic).
    pub fn derive_keys(&self) -> (result: Result<SyftPrivateKeys, RecoveryError>)
        ensures
            result matches Ok(keys) && keys@ == spec_derive_keys(self@),
    {
        let identity = match hkdf_sha256_expand32(&self.0, "SyftBox_Identity_Signing_Key_v1".as_bytes()) {
            Ok(k) => k,
            Err(_) => {
                return Err(RecoveryError::DerivationFailed);
            },
        };
        let identity_dh = match hkdf_sha256_expand32(&self.0, "SyftBox_Identity_DH_Key_v1".as_bytes()) {
            Ok(k) => k,
            Err(_) => {
                return Err(RecoveryError::DerivationFailed);
            },
        };
        let signed_pre_key = match hkdf_sha256_expand32(&self.0, "SyftBox_Signed_Prekey_v1".as_bytes()) {
            Ok(k) => k,
            Err(_) => {
                return Err(RecoveryError::DerivationFailed);
            },
        };
        Ok(SyftPrivateKeys { identity_signing_key: identity, identity_dh_key: identity_dh, signed_pre_key })
    }
}

/// A phrase reads as the same key as a phrase of lowercase words joined
/// by single spaces whenever its whitespace-separated words, lowercased,
/// are that phrase's words: other whitespace between the words, or upper
/// case, does not change what it reads as.
pub proof fn law_mnemonic_normal_form(p: Seq<char>, q: Seq<char>)
    requires
        is_single_spaced_lowercase(q),
        lower_words(ws_words(p)) == ws_words(q),
    ensures
        spec_normalize_phrase(p) == q,
        spec_parse_mnemonic(p) == spec_parse_mnemonic(q),
{
    lemma_single_spaced_joins_back(q);
    lemma_single_spaced_is_normal(q);
    assert(lower_words(ws_words(q)) =~= Seq::new(
        ws_words(q).len(),
        |i: int| spec_to_lowercase(ws_words(q)[i]),
    ));
}

/// An upper-cased phrase reads as the phrase of lowercase words joined by
/// single spaces that it came from.
pub proof fn law_mnemonic_ignores_case(q: Seq<char>)
    requires
        is_single_spaced_lowercase(q),
    ensures
        spec_parse_mnemonic(upper_ascii(q)) == spec_parse_mnemonic(q),
{
    lemma_lowercase_words_of_upper(q);
    assert(lower_words(ws_words(upper_ascii(q))) =~= Seq::new(
        ws_words(upper_ascii(q)).len(),
        |i: int| spec_to_lowercase(ws_words(upper_ascii(q))[i]),
    ));
    law_mnemonic_normal_form(upper_ascii(q), q);
}

proof fn lemma_first_unexpected_prefix(s: Seq<char>, n: int)
    requires
        0 < n <= s.len(),
        first_unexpected_char(s.take(n - 1)) is None,
        !is_hex_char(s[n - 1]),
        !is_key_separator(s[n - 1]),
    ensures
        first_unexpected_char(s) == Some(s[n - 1]),
    decreases s.len() - n,
{
    if n == s.len() {
        assert(s.take(n - 1) =~= s.drop_last());
    } else {
        assert(s.drop_last().take(n - 1) =~= s.take(n - 1));
        lemma_first_unexpected_prefix(s.drop_last(), n);
    }
}

proof fn lemma_hex_digits_are_hex(s: Seq<char>)
    ensures
        forall|i: int| 0 <= i < hex_digits_of(s).len() ==> is_hex_char(#[trigger] hex_digits_of(s)[i]),
    decreases s.len(),
{
    if s.len() > 0 {
        lemma_hex_digits_are_hex(s.drop_last());
        let r = hex_digits_of(s.drop_last());
        if is_hex_char(s.last()) {
            assert forall|i: int| 0 <= i < r.push(s.last()).len() implies is_hex_char(
                #[trigger] r.push(s.last())[i],
            ) by {
                if i < r.len() {
                    assert(r.push(s.last())[i] == r[i]);
                }
            }
        }
    }
}

// ----------------------------------------------------------------------
// Private keys
// ----------------------------------------------------------------------

/// The three private keys as byte sequences.
pub ghost struct PrivateKeysView {
    pub identity: Seq<u8>,
    pub identity_dh: Seq<u8>,
    pub signed_pre_key: Seq<u8>,
}

/// Container for the private key material of X3DH: the Ed25519 identity
/// signing seed and the X25519 identity-DH and signed-prekey secrets.
pub struct SyftPrivateKeys {
    identity_signing_key: [u8; 32],
    identity_dh_key: [u8; 32],
    signed_pre_key: [u8; 32],
}

impl View for SyftPrivateKeys {
    type V = PrivateKeysView;

    closed spec fn view(&self) -> PrivateKeysView {
        PrivateKeysView {
            identity: self.identity_signing_key@,
            identity_dh: self.identity_dh_key@,
            signed_pre_key: self.signed_pre_key@,
        }
    }
}

/// A recovery key written with `to_hex_string` reads back, with
/// `from_hex_string`, as the same key.
pub proof fn law_recovery_hex_roundtrip(key: Seq<u8>)
    requires
        key.len() == 32,
        spec_has_min_entropy(key),
    ensures
        spec_parse_recovery_hex(spec_recovery_hex_string(key)) == Ok::<Seq<u8>, RecoveryFailure>(key),
{
    let h = spec_hex_encode(key);
    lemma_hex_roundtrip(key);
    lemma_dash_groups_chars(h);
    lemma_first_unexpected_none(dash_groups(h));
    lemma_hex_digits_of_dash_groups(h);
}

/// Every character of `dash_groups(h)` is a character of `h` or a dash.
proof fn lemma_dash_groups_chars(h: Seq<char>)
    requires
        forall|i: int| 0 <= i < h.len() ==> is_hex_char(#[trigger] h[i]),
    ensures
        forall|i: int|
            0 <= i < dash_groups(h).len() ==> is_hex_char(#[trigger] dash_groups(h)[i])
                || dash_groups(h)[i] == '-',
    decreases h.len(),
{
    if h.len() > 4 {
        let t = h.take(h.len() - 4);
        let g = h.skip(h.len() - 4);
        assert forall|i: int| 0 <= i < t.len() implies is_hex_char(#[trigger] t[i]) by {
            assert(t[i] == h[i]);
        }
        lemma_dash_groups_chars(t);
        let d = dash_groups(h);
        assert(d == dash_groups(t) + seq!['-'] + g);
        assert forall|i: int| 0 <= i < d.len() implies is_hex_char(#[trigger] d[i]) || d[i] == '-' by {
            let dt = dash_groups(t);
            if i < dt.len() {
                assert(d[i] == dt[i]);
            } else if i == dt.len() {
                assert(d[i] == '-');
            } else {
                assert(d[i] == g[i - dt.len() - 1]);
                assert(g[i - dt.len() - 1] == h[h.len() - 4 + i - dt.len() - 1]);
            }
        }
    }
}

/// Text made of hex digits and separators only has no unexpected character.
proof fn lemma_first_unexpected_none(s: Seq<char>)
    requires
        forall|i: int| 0 <= i < s.len() ==> is_hex_char(#[trigger] s[i]) || is_key_separator(s[i]),
    ensures
        first_unexpected_char(s) is None,
    decreases s.len(),
{
    if s.len() > 0 {
        let p = s.drop_last();
        assert forall|i: int| 0 <= i < p.len() implies is_hex_char(#[trigger] p[i])
            || is_key_separator(p[i]) by {
            assert(p[i] == s[i]);
        }
        lemma_first_unexpected_none(p);
        assert(is_hex_char(s[s.len() - 1]) || is_key_separator(s[s.len() - 1]));
    }
}

proof fn lemma_hex_digits_concat(a: Seq<char>, b: Seq<char>)
    ensures
        hex_digits_of(a + b) == hex_digits_of(a) + hex_digits_of(b),
    decreases b.len(),
{
    if b.len() == 0 {
        assert(a + b =~= a);
        assert(hex_digits_of(a) + hex_digits_of(b) =~= hex_digits_of(a));
    } else {
        lemma_hex_digits_concat(a, b.drop_last());
        assert((a + b).drop_last() =~= a + b.drop_last());
        assert((a + b).last() == b.last());
        if is_hex_char(b.last()) {
            assert(hex_digits_of(a) + hex_digits_of(b.drop_last()).push(b.last()) =~= (hex_digits_of(a)
                + hex_digits_of(b.drop_last())).push(b.last()));
        }
    }
}

proof fn lemma_hex_digits_all_hex(s: Seq<char>)
    requires
        forall|i: int| 0 <= i < s.len() ==> is_hex_char(#[trigger] s[i]),
    ensures
        hex_digits_of(s) == s,
    decreases s.len(),
{
    if s.len() > 0 {
        let p = s.drop_last();
        assert forall|i: int| 0 <= i < p.len() implies is_hex_char(#[trigger] p[i]) by {
            assert(p[i] == s[i]);
        }
        lemma_hex_digits_all_hex(p);
        assert(is_hex_char(s[s.len() - 1]));
        assert(p.push(s.last()) =~= s);
    }
}

/// `s` with its separators (`-`, space, newline, carriage return, tab)
/// taken out.
pub open spec fn remove_separators(s: Seq<char>) -> Seq<char>
    decreases s.len(),
{
    if s.len() == 0 {
        s
    } else if is_key_separator(s.last()) {
        remove_separators(s.drop_last())
    } else {
        remove_separators(s.drop_last()).push(s.last())
    }
}

proof fn lemma_remove_separators(s: Seq<char>)
    ensures
        first_unexpected_char(remove_separators(s)) == first_unexpected_char(s),
        hex_digits_of(remove_separators(s)) == hex_digits_of(s),
    decreases s.len(),
{
    if s.len() > 0 {
        lemma_remove_separators(s.drop_last());
        let r = remove_separators(s.drop_last());
        if !is_key_separator(s.last()) {
            assert(r.push(s.last()).drop_last() =~= r);
            assert(r.push(s.last()).last() == s.last());
        }
    }
}

/// Reading a recovery key ignores its separators: the text reads as it
/// does with every separator taken out.
pub proof fn law_recovery_hex_ignores_separators(s: Seq<char>)
    ensures
        spec_parse_recovery_hex(remove_separators(s)) == spec_parse_recovery_hex(s),
{
    lemma_remove_separators(s);
}

proof fn lemma_ascii_upper_keeps_class(c: char)
    ensures
        is_hex_char(ascii_upper(c)) == is_hex_char(c),
        is_key_separator(ascii_upper(c)) == is_key_separator(c),
        is_hex_char(c) ==> hex_value(ascii_upper(c)) == hex_value(c),
{
}

proof fn lemma_upper_hex_digits(s: Seq<char>)
    requires
        first_unexpected_char(s) is None,
    ensures
        first_unexpected_char(upper_ascii(s)) is None,
        hex_digits_of(upper_ascii(s)) == upper_ascii(hex_digits_of(s)),
    decreases s.len(),
{
    if s.len() > 0 {
        let p = s.drop_last();
        lemma_upper_hex_digits(p);
        lemma_ascii_upper_keeps_class(s.last());
        assert(upper_ascii(s).drop_last() =~= upper_ascii(p));
        assert(upper_ascii(s).last() == ascii_upper(s.last()));
        if is_hex_char(s.last()) {
            assert(upper_ascii(hex_digits_of(p).push(s.last())) =~= upper_ascii(hex_digits_of(p)).push(
                ascii_upper(s.last()),
            ));
        }
    }
}

/// Reading a recovery key ignores the case of its hex digits: text made of
/// hex digits and separators reads as it does with its letters upper-cased.
pub proof fn law_recovery_hex_ignores_case(s: Seq<char>)
    requires
        forall|i: int| 0 <= i < s.len() ==> is_hex_char(#[trigger] s[i]) || is_key_separator(s[i]),
    ensures
        spec_parse_recovery_hex(upper_ascii(s)) == spec_parse_recovery_hex(s),
{
    lemma_first_unexpected_none(s);
    lemma_upper_hex_digits(s);
    let d = hex_digits_of(s);
    lemma_hex_digits_are_hex(s);
    assert forall|i: int| 0 <= i < d.len() implies hex_value(#[trigger] upper_ascii(d)[i]) == hex_value(
        d[i],
    ) by {
        lemma_ascii_upper_keeps_class(d[i]);
    }
    assert(spec_hex_decode(upper_ascii(d)) =~= spec_hex_decode(d));
}

/// A character that is neither a hex digit nor a separator, put anywhere
/// into text made of hex digits and separators, makes reading fail with
/// `InvalidHex` naming that character.
pub proof fn law_recovery_hex_rejects_unexpected(s: Seq<char>, i: int, c: char)
    requires
        forall|j: int| 0 <= j < s.len() ==> is_hex_char(#[trigger] s[j]) || is_key_separator(s[j]),
        0 <= i <= s.len(),
        !is_hex_char(c),
        !is_key_separator(c),
    ensures
        spec_parse_recovery_hex(s.insert(i, c)) == Err::<Seq<u8>, RecoveryFailure>(
            RecoveryFailure::InvalidHex(c),
        ),
{
    let t = s.insert(i, c);
    let pre = t.take(i);
    assert(pre =~= s.take(i));
    assert forall|j: int| 0 <= j < pre.len() implies is_hex_char(#[trigger] pre[j]) || is_key_separator(
        pre[j],
    ) by {
        assert(pre[j] == s[j]);
    }
    lemma_first_unexpected_none(pre);
    assert(t[i] == c);
    lemma_first_unexpected_prefix(t, i + 1);
}

proof fn lemma_hex_digits_of_dash_groups(h: Seq<char>)
    requires
        forall|i: int| 0 <= i < h.len() ==> is_hex_char(#[trigger] h[i]),
    ensures
        hex_digits_of(dash_groups(h)) == h,
    decreases h.len(),
{
    if h.len() <= 4 {
        lemma_hex_digits_all_hex(h);
    } else {
        let t = h.take(h.len() - 4);
        let g = h.skip(h.len() - 4);
        assert forall|i: int| 0 <= i < t.len() implies is_hex_char(#[trigger] t[i]) by {
            assert(t[i] == h[i]);
        }
        assert forall|i: int| 0 <= i < g.len() implies is_hex_char(#[trigger] g[i]) by {
            assert(g[i] == h[h.len() - 4 + i]);
        }
        lemma_hex_digits_of_dash_groups(t);
        lemma_hex_digits_all_hex(g);
        lemma_hex_digits_concat(dash_groups(t) + seq!['-'], g);
        lemma_hex_digits_concat(dash_groups(t), seq!['-']);
        let dash: Seq<char> = seq!['-'];
        assert(dash.drop_last() =~= Seq::<char>::empty());
        assert(!is_hex_char(dash.last()));
        assert(hex_digits_of(dash.drop_last()) =~= Seq::<char>::empty());
        assert(hex_digits_of(dash) =~= Seq::<char>::empty());
        assert(t + g =~= h);
    }
}

impl SyftPrivateKeys {
    /// Create a container for private key material.
    pub fn new(identity_signing_key: [u8; 32], identity_dh_key: [u8; 32], signed_pre_key: [u8; 32]) -> (keys: Self)
        ensures
            keys@ == (PrivateKeysView {
                identity: identity_signing_key@,
                identity_dh: identity_dh_key@,
                signed_pre_key: signed_pre_key@,
            }),
    {
        SyftPrivateKeys { identity_signing_key, identity_dh_key, signed_pre_key }
    }

    /// The Ed25519 identity signing key (its 32-byte seed).
    pub fn identity(&self) -> (key: &[u8; 32])
        ensures
            key@ == self@.identity,
    {
        &self.identity_signing_key
    }

    /// The X25519 identity DH secret.
    pub fn identity_dh(&self) -> (key: &[u8; 32])
        ensures
            key@ == self@.identity_dh,
    {
        &self.identity_dh_key
    }

    /// The X25519 signed prekey secret.
    pub fn signed_pre_key(&self) -> (key: &[u8; 32])
        ensures
            key@ == self@.signed_pre_key,
    {
        &self.signed_pre_key
    }

    /// The public key bundle with the identity's signatures; its signatures
    /// always verify.
    pub fn to_public_bundle(&self) -> (result: Result<SyftPublicKeyBundle, KeyError>)
        ensures
            result matches Ok(bundle) && bundle@ == spec_public_bundle(self@)
                && spec_bundle_signatures_valid(bundle@),
    {
        SyftPublicKeyBundle::new(self.identity(), self.identity_dh(), self.signed_pre_key())
    }
}

// ----------------------------------------------------------------------
// Public key bundle
// ----------------------------------------------------------------------

/// The bundle's keys and signatures as byte sequences.
pub ghost struct PublicBundleView {
    pub identity_signing_public_key: Seq<u8>,
    pub identity_dh_public_key: Seq<u8>,
    pub identity_dh_signature: Seq<u8>,
    pub signed_prekey_public_key: Seq<u8>,
    pub signed_prekey_signature: Seq<u8>,
}

/// The bundle published for a set of private keys: the public keys, and the
/// identity key's signatures over the two X25519 public keys.
pub open spec fn spec_public_bundle(keys: PrivateKeysView) -> PublicBundleView {
    let identity_dh_public = spec_x25519_public(keys.identity_dh);
    let signed_prekey_public = spec_x25519_public(keys.signed_pre_key);
    PublicBundleView {
        identity_signing_public_key: spec_ed25519_public(keys.identity),
        identity_dh_public_key: identity_dh_public,
        identity_dh_signature: spec_ed25519_sign(keys.identity, identity_dh_public),
        signed_prekey_public_key: signed_prekey_public,
        signed_prekey_signature: spec_ed25519_sign(keys.identity, signed_prekey_public),
    }
}

/// A 64-byte signature that strictly verifies.
pub open spec fn spec_signature_valid(public: Seq<u8>, msg: Seq<u8>, sig: Seq<u8>) -> bool {
    sig.len() == 64 && spec_ed25519_verify_strict(public, msg, sig)
}

/// The identity key is a valid Ed25519 key and both signatures verify.
pub open spec fn spec_bundle_signatures_valid(b: PublicBundleView) -> bool {
    &&& spec_ed25519_key_valid(b.identity_signing_public_key)
    &&& spec_signature_valid(b.identity_signing_public_key, b.identity_dh_public_key, b.identity_dh_signature)
    &&& spec_signature_valid(b.identity_signing_public_key, b.signed_prekey_public_key, b.signed_prekey_signature)
}

/// Bundle of public keys and signatures for publishing in DID documents.
#[derive(Clone)]
pub struct SyftPublicKeyBundle {
    pub identity_signing_public_key: [u8; 32],
    pub identity_dh_public_key: [u8; 32],
    pub identity_dh_signature: Vec<u8>,
    pub signed_prekey_public_key: [u8; 32],
    pub signed_prekey_signature: Vec<u8>,
}

impl View for SyftPublicKeyBundle {
    type V = PublicBundleView;

    open spec fn view(&self) -> PublicBundleView {
        PublicBundleView {
            identity_signing_public_key: self.identity_signing_public_key@,
            identity_dh_public_key: self.identity_dh_public_key@,
            identity_dh_signature: self.identity_dh_signature@,
            signed_prekey_public_key: self.signed_prekey_public_key@,
            signed_prekey_signature: self.signed_prekey_signature@,
        }
    }
}

/// The 64-byte signature held in `bytes`, if it has that length.
pub fn signature_from_slice(bytes: &[u8]) -> (sig: Option<[u8; 64]>)
    ensures
        sig is Some <==> bytes@.len() == 64,
        sig matches Some(s) ==> s@ == bytes@,
{
    if bytes.len() != 64 {
        return None;
    }
    let mut sig = [0u8; 64];
    let mut i: usize = 0;
    while i < 64
        invariant
            bytes@.len() == 64,
            i <= 64,
            forall|k: int| 0 <= k < i ==> sig@[k] == bytes@[k],
        decreases 64 - i,
    {
        sig[i] = bytes[i];
        i = i + 1;
    }
    assert(sig@ =~= bytes@);
    Some(sig)
}

/// Copy of a 64-byte signature into a vector.
fn signature_to_vec(sig: &[u8; 64]) -> (v: Vec<u8>)
    ensures
        v@ == sig@,
{
    let mut v: Vec<u8> = Vec::new();
    let mut i: usize = 0;
    while i < 64
        invariant
            i <= 64,
            v@ == sig@.take(i as int),
        decreases 64 - i,
    {
        v.push(sig[i]);
        i = i + 1;
        assert(v@ =~= sig@.take(i as int));
    }
    assert(sig@.take(64) =~= sig@);
    v
}

impl SyftPublicKeyBundle {
    /// Create a bundle from the identity signing key and the two X25519
    /// secrets, signing both X25519 public keys with the identity key.
    pub fn new(identity_signing_key: &[u8; 32], identity_dh_key: &[u8; 32], signed_pre_key: &[u8; 32]) -> (result: Result<Self, KeyError>)
        ensures
            result matches Ok(bundle) && bundle@ == spec_public_bundle(
                PrivateKeysView {
                    identity: identity_signing_key@,
                    identity_dh: identity_dh_key@,
                    signed_pre_key: signed_pre_key@,
                },
            ) && spec_bundle_signatures_valid(bundle@),
    {
        let identity_public_key = ed25519_public_key(identity_signing_key);
        let identity_dh_public_key = x25519_public_key(identity_dh_key);
        let signed_pre_key_public = x25519_public_key(signed_pre_key);
        let identity_dh_signature = ed25519_sign(identity_signing_key, identity_dh_public_key.as_slice());
        let signed_pre_key_signature = ed25519_sign(identity_signing_key, signed_pre_key_public.as_slice());
        Ok(SyftPublicKeyBundle {
            identity_signing_public_key: identity_public_key,
            identity_dh_public_key,
            identity_dh_signature: signature_to_vec(&identity_dh_signature),
            signed_prekey_public_key: signed_pre_key_public,
            signed_prekey_signature: signature_to_vec(&signed_pre_key_signature),
        })
    }

    /// Verify both signatures of the bundle.
    pub fn verify_signatures(&self) -> (valid: bool)
        ensures
            valid == spec_bundle_signatures_valid(self@),
    {
        if !ed25519_key_is_valid(&self.identity_signing_public_key) {
            return false;
        }
        let identity_dh_valid = match signature_from_slice(self.identity_dh_signature.as_slice()) {
            Some(sig) => ed25519_verify_strict(
                &self.identity_signing_public_key,
                self.identity_dh_public_key.as_slice(),
                &sig,
            ),
            None => false,
        };
        let signed_pre_key_valid = match signature_from_slice(self.signed_prekey_signature.as_slice()) {
            Some(sig) => ed25519_verify_strict(
                &self.identity_signing_public_key,
                self.signed_prekey_public_key.as_slice(),
                &sig,
            ),
            None => false,
        };
        identity_dh_valid && signed_pre_key_valid
    }

    /// The identity public key fingerprint.
    pub fn identity_fingerprint(&self) -> (fingerprint: String)
        ensures
            fingerprint@ == spec_key_fingerprint(self.identity_signing_public_key@),
            fingerprint@.len() == 64,
    {
        compute_identity_fingerprint(&self.identity_signing_public_key)
    }

    /// Total size of the bundle's keys and signatures in bytes.
    pub fn total_size(&self) -> (size: usize)
        requires
            96 + self.identity_dh_signature@.len() + self.signed_prekey_signature@.len() <= usize::MAX,
        ensures
            size == 96 + self.identity_dh_signature@.len() + self.signed_prekey_signature@.len(),
    {
        32 + 32 + self.identity_dh_signature.len() + 32 + self.signed_prekey_signature.len()
    }
}

} // verus!
