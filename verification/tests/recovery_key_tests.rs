use syftbox_crypto_protocol::error::RecoveryError;
use syftbox_crypto_protocol::keys::{compute_identity_fingerprint, compute_key_fingerprint, has_min_entropy};
use syftbox_crypto_protocol::SyftRecoveryKey;

const KEY_HEX: &str = "000102030405060708090a0b0c0d0e0f101112131415161718191a1b1c1d1e1f";

#[test]
fn hex_string_is_sixteen_dashed_groups() {
    let key = SyftRecoveryKey::from_hex_string(KEY_HEX).unwrap();
    assert_eq!(
        key.to_hex_string(),
        "0001-0203-0405-0607-0809-0a0b-0c0d-0e0f-1011-1213-1415-1617-1819-1a1b-1c1d-1e1f"
    );
    let again = SyftRecoveryKey::from_hex_string(&key.to_hex_string()).unwrap();
    assert_eq!(again.as_bytes(), key.as_bytes());
}

#[test]
fn hex_parsing_accepts_separators_and_upper_case() {
    let spaced = "0001 0203\t0405\n0607\r0809-0A0B-0C0D-0E0F-1011-1213-1415-1617-1819-1A1B-1C1D-1E1F";
    let key = SyftRecoveryKey::from_hex_string(spaced).unwrap();
    assert_eq!(key.as_bytes()[10], 10);
}

#[test]
fn hex_parsing_reports_each_error() {
    match SyftRecoveryKey::from_hex_string("00zz") {
        Err(RecoveryError::InvalidHex(m)) => assert_eq!(m, "unexpected character 'z' in recovery key"),
        _ => panic!("unexpected result"),
    }
    match SyftRecoveryKey::from_hex_string("0001") {
        Err(RecoveryError::InvalidLength { expected, actual }) => assert_eq!((expected, actual), (64, 4)),
        _ => panic!("unexpected result"),
    }
    let flat = "00".repeat(32);
    assert!(matches!(SyftRecoveryKey::from_hex_string(&flat), Err(RecoveryError::InsufficientEntropy)));
}

#[test]
fn min_entropy_needs_sixteen_distinct_bytes() {
    let mut bytes = [0u8; 32];
    assert!(!has_min_entropy(&bytes));
    for i in 0..15 {
        bytes[i] = i as u8 + 1;
    }
    // 0 and 1..=15: sixteen distinct values.
    assert!(has_min_entropy(&bytes));
    bytes[0] = 2;
    assert!(!has_min_entropy(&bytes));
}

#[test]
fn mnemonic_roundtrip_and_normalisation() {
    let key = SyftRecoveryKey::from_hex_string(KEY_HEX).unwrap();
    let phrase = key.to_mnemonic();
    assert_eq!(phrase.split(' ').count(), 24);
    let back = SyftRecoveryKey::from_mnemonic(&phrase).unwrap();
    assert_eq!(back.as_bytes(), key.as_bytes());
    let shouted = format!("  {}  ", phrase.to_uppercase().replace(' ', "\n \t"));
    let back = SyftRecoveryKey::from_mnemonic(&shouted).unwrap();
    assert_eq!(back.as_bytes(), key.as_bytes());
    assert!(matches!(SyftRecoveryKey::from_mnemonic("not a phrase"), Err(RecoveryError::MnemonicError(_))));
}

#[test]
fn generated_mnemonic_roundtrips() {
    let key = SyftRecoveryKey::generate();
    let back = SyftRecoveryKey::from_mnemonic(&key.to_mnemonic()).unwrap();
    assert_eq!(back.as_bytes(), key.as_bytes());
}

#[test]
fn debug_string_redacts_all_but_four_bytes() {
    let key = SyftRecoveryKey::from_hex_string(KEY_HEX).unwrap();
    assert_eq!(
        key.debug_string(),
        "SyftRecoveryKey { first_4_bytes: \"00010203\", remaining: \"<redacted 28 bytes>\" }"
    );
}

#[test]
fn fingerprints_are_sha256_hex() {
    // SHA-256 of the empty input.
    assert_eq!(
        compute_key_fingerprint(&[]),
        "e3b0c44298fc1c149afbf4c8996fb92427ae41e4649b934ca495991b7852b855"
    );
    let id = [7u8; 32];
    assert_eq!(compute_identity_fingerprint(&id), compute_key_fingerprint(&id));
    assert_eq!(compute_identity_fingerprint(&id).len(), 64);
}

#[test]
fn hex_parsing_ignores_separators_and_case() {
    let dashed = SyftRecoveryKey::from_hex_string(
        "0001-0203-0405-0607-0809-0a0b-0c0d-0e0f-1011-1213-1415-1617-1819-1a1b-1c1d-1e1f",
    )
    .unwrap();
    let plain = SyftRecoveryKey::from_hex_string(KEY_HEX).unwrap();
    let upper = SyftRecoveryKey::from_hex_string(&KEY_HEX.to_uppercase()).unwrap();
    let mixed = SyftRecoveryKey::from_hex_string(&format!(" \n{}\t-\r", &KEY_HEX.to_uppercase())).unwrap();
    assert_eq!(dashed.as_bytes(), plain.as_bytes());
    assert_eq!(upper.as_bytes(), plain.as_bytes());
    assert_eq!(mixed.as_bytes(), plain.as_bytes());
}

#[test]
fn hex_parsing_rejects_any_inserted_non_hex_character() {
    for (i, c) in [(0usize, 'g'), (10, '_'), (64, '.'), (31, 'Z')] {
        let mut text = KEY_HEX.to_string();
        text.insert(i, c);
        match SyftRecoveryKey::from_hex_string(&text) {
            Err(RecoveryError::InvalidHex(m)) => {
                assert_eq!(m, format!("unexpected character '{c}' in recovery key"))
            }
            _ => panic!("unexpected result for {text}"),
        }
    }
}

#[test]
fn mnemonic_is_single_spaced_lowercase_words() {
    let key = SyftRecoveryKey::from_hex_string(KEY_HEX).unwrap();
    let phrase = key.to_mnemonic();
    assert!(phrase.chars().all(|c| c == ' ' || c.is_ascii_lowercase()));
    assert!(!phrase.starts_with(' ') && !phrase.ends_with(' ') && !phrase.contains("  "));
    assert_eq!(phrase.split_whitespace().count(), 24);
}

#[test]
fn every_key_has_enough_distinct_bytes_and_reads_back_from_hex() {
    for key in [SyftRecoveryKey::generate(), SyftRecoveryKey::from_hex_string(KEY_HEX).unwrap()] {
        assert!(has_min_entropy(key.as_bytes()));
        let back = SyftRecoveryKey::from_hex_string(&key.to_hex_string()).unwrap();
        assert_eq!(back.as_bytes(), key.as_bytes());
    }
}
