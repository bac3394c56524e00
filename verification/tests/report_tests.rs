use syftbox_crypto_protocol::commands::inspect_ciphertext;
use syftbox_crypto_protocol::json::{zeroize_json_value, JsonValue};
use syftbox_crypto_protocol::reports::{
    key_file_identity, key_list_lines, key_verify_lines, plaintext_report, recipient_line,
    report_sender_consistency,
};

#[test]
fn key_list_filters_and_reports_sizes() {
    let entries = vec![("alice".to_string(), 120u64), ("bob".to_string(), 7u64)];
    assert_eq!(key_list_lines(&entries, None, false), vec!["  - alice", "  - bob"]);
    assert_eq!(key_list_lines(&entries, Some("bob"), true), vec!["  - bob (7 bytes)"]);
    assert_eq!(key_list_lines(&entries, Some("carol"), false), vec!["  (no identities found)"]);
    assert_eq!(key_list_lines(&vec![], None, true), vec!["  (no identities found)"]);
}

#[test]
fn key_file_identity_falls_back_to_stem() {
    let parsed = JsonValue::Object(vec![("identity".to_string(), JsonValue::String("alice@x".to_string()))]);
    assert_eq!(key_file_identity(Some(&parsed), "/v/keys/alice_x.key"), "alice@x");
    assert_eq!(key_file_identity(None, "/v/keys/raw.key"), "raw");
    assert_eq!(key_file_identity(Some(&JsonValue::Null), "/v/keys/raw.key"), "raw");
}

#[test]
fn key_verify_summary() {
    assert_eq!(
        key_verify_lines("alice", Some("did:web:x"), "ab12", 512, Some("bob"), false),
        vec![
            "  warning: bundle identity 'alice' differs from expected 'bob'",
            "  identity: alice",
            "  did: did:web:x",
            "  fingerprint: ab12",
            "  bundle size: 512 bytes",
        ]
    );
    assert!(key_verify_lines("alice", None, "ab12", 512, Some("alice"), true).is_empty());
}

#[test]
fn plaintext_report_lines() {
    let info = inspect_ciphertext(b"hello");
    assert_eq!(
        plaintext_report(&info),
        vec![
            "  not an SBC envelope – treating input as plaintext",
            "  ciphertext marker present: no",
            "  file size: 5 bytes",
        ]
    );
}

#[test]
fn recipient_and_sender_lines() {
    assert_eq!(recipient_line(None, None, None), "    - <unspecified-identity> [<unspecified-device>] spk=<none>");
    assert_eq!(recipient_line(Some("bob"), Some("laptop"), Some("ff")), "    - bob [laptop] spk=ff");
    assert_eq!(report_sender_consistency("", Some("a"), "b"), None);
    assert_eq!(
        report_sender_consistency("alice", Some("aa"), "aa").unwrap(),
        "  cached sender fingerprint matches (aa)"
    );
    assert_eq!(
        report_sender_consistency("alice", Some("aa"), "bb").unwrap(),
        "  warning: cached sender fingerprint aa differs from envelope bb (TOFU violation)"
    );
    assert_eq!(
        report_sender_consistency("alice", None, "bb").unwrap(),
        "  note: sender identity alice has no cached bundle – consider `sbc key import`"
    );
}

#[test]
fn zeroize_empties_every_string() {
    let mut value = JsonValue::Object(vec![
        ("identity".to_string(), JsonValue::String("alice".to_string())),
        (
            "keys".to_string(),
            JsonValue::Array(vec![JsonValue::String("secret".to_string()), JsonValue::Number("3".to_string())]),
        ),
    ]);
    zeroize_json_value(&mut value);
    let JsonValue::Object(entries) = &value else { panic!() };
    assert_eq!(entries[0].0, "identity");
    assert!(matches!(&entries[0].1, JsonValue::String(s) if s.is_empty()));
    let JsonValue::Array(items) = &entries[1].1 else { panic!() };
    assert!(matches!(&items[0], JsonValue::String(s) if s.is_empty()));
    assert!(matches!(&items[1], JsonValue::Number(n) if n == "3"));
}
