use std::path::Path;
use syftbox_crypto_protocol::context::{
    bundle_path_for_identity, default_vault_path, detect_single_identity, expand_home,
    fallback_identity_from_path, identity_from_backup, identity_from_key_json, key_path_for_identity,
    make_temp_path,
    read_identity_from_key, resolve_config_path, resolve_data_path, resolve_datasite_config,
    resolve_identity, resolve_roots, resolve_shadow_path, resolve_vault, sanitize_identity, yes_no,
    AppContext, DatasiteConfig, DatasiteConfigRaw,
};
use syftbox_crypto_protocol::json::JsonValue;

const HOME: &str = "/home/tester";

fn object(entries: Vec<(&str, JsonValue)>) -> JsonValue {
    JsonValue::Object(entries.into_iter().map(|(k, v)| (k.to_string(), v)).collect())
}

fn text(s: &str) -> JsonValue {
    JsonValue::String(s.to_string())
}

#[test]
fn resolve_vault_prefers_flag_over_env() {
    let vault_flag = "~/sbc-flag".to_string();
    let resolved = resolve_vault(Some(vault_flag.clone()), Some("/env/vault".to_string()), Some(HOME));
    assert_eq!(resolved, expand_home(&vault_flag, Some(HOME)));
    assert_eq!(resolved, "/home/tester/sbc-flag");
}

#[test]
fn resolve_vault_defaults_to_home_directory() {
    let expected = default_vault_path(Some(HOME));
    assert_eq!(resolve_vault(None, None, Some(HOME)), expected);
    assert_eq!(resolve_vault(None, None, None), default_vault_path(None));
}

#[test]
fn resolve_vault_uses_env_without_flag() {
    assert_eq!(resolve_vault(None, Some("~/env-vault".to_string()), Some(HOME)), "/home/tester/env-vault");
}

#[test]
fn resolve_roots_errors_without_any_sources() {
    let err = resolve_roots(None, None, None, None, None, Some(HOME)).unwrap_err();
    assert!(err.contains("unable to determine data root"));
}

#[test]
fn resolve_roots_requires_shadow_source() {
    let data_override = "/tmp/vault/data".to_string();
    let err = resolve_roots(Some(data_override), None, None, None, None, Some(HOME)).unwrap_err();
    assert!(err.contains("shadow root"));
}

#[test]
fn resolve_roots_prefers_overrides() {
    let data_override = "/tmp/vault/data-override".to_string();
    let shadow_override = "/tmp/vault/shadow-override".to_string();
    let config = DatasiteConfig {
        encrypted_root: "/cfg/encrypted".to_string(),
        shadow_root: "/cfg/shadow".to_string(),
    };
    let (data_root, shadow_root) = resolve_roots(
        Some(data_override.clone()),
        Some(shadow_override.clone()),
        Some("/env/data".to_string()),
        Some("/env/shadow".to_string()),
        Some(config),
        Some(HOME),
    )
    .unwrap();
    assert_eq!(data_root, data_override);
    assert_eq!(shadow_root, shadow_override);
}

#[test]
fn resolve_roots_falls_back_to_env_then_config() {
    let config = DatasiteConfig {
        encrypted_root: "/cfg/encrypted".to_string(),
        shadow_root: "/cfg/shadow".to_string(),
    };
    let (data_root, shadow_root) =
        resolve_roots(None, None, Some("~/env-data".to_string()), None, Some(config), Some(HOME)).unwrap();
    assert_eq!(data_root, "/home/tester/env-data");
    assert_eq!(shadow_root, "/cfg/shadow");
}

#[test]
fn resolve_datasite_config_resolves_against_vault() {
    let raw = DatasiteConfigRaw { encrypted_root: "encrypted".to_string(), shadow_root: "~/shadow".to_string() };
    let cfg = resolve_datasite_config("/vault", &raw, Some(HOME));
    assert_eq!(cfg.encrypted_root, "/vault/encrypted");
    assert_eq!(cfg.shadow_root, "/home/tester/shadow");
    assert!(cfg.encrypted_root.ends_with("encrypted"));
}

#[test]
fn resolve_config_path_keeps_absolute_paths() {
    assert_eq!(resolve_config_path("/vault", "relative/path", None), "/vault/relative/path");
    assert_eq!(resolve_config_path("/vault", "/abs/f.txt", None), "/abs/f.txt");
}

#[test]
fn resolve_data_and_shadow_paths_support_relative_and_absolute() {
    let dir = "/tmp/sbc-test";
    let context = AppContext {
        vault_path: format!("{dir}/vault"),
        data_root: format!("{dir}/data"),
        shadow_root: format!("{dir}/shadow"),
    };

    let absolute = format!("{dir}/file.txt");
    assert_eq!(resolve_data_path(&context, &absolute, Some(HOME)), absolute);
    assert_eq!(
        resolve_data_path(&context, "relative.txt", Some(HOME)),
        format!("{}/relative.txt", context.data_root)
    );
    assert_eq!(
        resolve_shadow_path(&context, "plain.txt", Some(HOME)),
        format!("{}/plain.txt", context.shadow_root)
    );
}

#[test]
fn expand_home_supports_tilde_forms() {
    assert_eq!(expand_home("~", Some(HOME)), HOME);
    assert_eq!(expand_home("~/docs", Some(HOME)), "/home/tester/docs");
    assert_eq!(expand_home("~", None), "~");
    assert_eq!(expand_home("~/docs", None), "~/docs");
    assert_eq!(expand_home("~docs", Some(HOME)), "~docs");
    assert_eq!(expand_home("/abs", Some(HOME)), "/abs");
}

#[test]
fn yes_no_returns_expected_values() {
    assert_eq!(yes_no(true), "yes");
    assert_eq!(yes_no(false), "no");
}

#[test]
fn key_path_for_identity_sanitizes_input() {
    let vault = "/tmp/vault";
    let path = key_path_for_identity(vault, "user@example.com");
    assert!(Path::new(&path).ends_with("user@example.com.key"));

    let sanitized = key_path_for_identity(vault, "User Name!");
    assert!(Path::new(&sanitized).ends_with("User_Name_.key"));
}

#[test]
fn bundle_path_for_identity_is_under_bundles() {
    assert_eq!(bundle_path_for_identity("/tmp/vault", "bob@example.org"), "/tmp/vault/bundles/bob@example.org.json");
    assert_eq!(key_path_for_identity("/tmp/vault", "bob@example.org"), "/tmp/vault/keys/bob@example.org.key");
}

#[test]
fn fallback_identity_from_path_uses_stem() {
    let identity = fallback_identity_from_path("/tmp/alice.key");
    assert_eq!(identity, "alice");
}

#[test]
fn fallback_identity_handles_dotfiles_and_missing_names() {
    assert_eq!(fallback_identity_from_path("/tmp/.bashrc"), ".bashrc");
    assert_eq!(fallback_identity_from_path("/tmp/archive.tar.gz"), "archive.tar");
    assert_eq!(fallback_identity_from_path("/tmp/noext"), "noext");
    assert_eq!(fallback_identity_from_path("/tmp/keys/"), "keys");
    assert_eq!(fallback_identity_from_path("/"), "unknown");
    assert_eq!(fallback_identity_from_path("/tmp/.."), "unknown");
}

#[test]
fn default_vault_path_uses_home_when_available() {
    assert_eq!(default_vault_path(Some(HOME)), "/home/tester/.sbc");
    assert_eq!(default_vault_path(None), ".sbc");
}

#[test]
fn sanitize_identity_replaces_unsupported_characters() {
    assert_eq!(sanitize_identity("Alice!"), "Alice_");
    assert_eq!(sanitize_identity("bob_smith"), "bob_smith");
}

#[test]
fn make_temp_path_places_file_next_to_target() {
    let dir = "/tmp/sbc-temp-dir";
    let target = format!("{dir}/output.bin");
    let temp = make_temp_path(&target, 1_700_000_000_123_456_789, 7);
    assert_eq!(Path::new(&temp).parent(), Some(Path::new(dir)));
    assert!(Path::new(&temp)
        .file_name()
        .unwrap()
        .to_string_lossy()
        .starts_with(".output.bin."));
}

#[test]
fn make_temp_path_formats_time_and_counter() {
    let temp = make_temp_path("/data/out.txt", 42, 255);
    assert_eq!(temp, "/data/.out.txt.42.00000000000000ff.tmp");
    let bare = make_temp_path("out.txt", 0, 0);
    assert_eq!(bare, ".out.txt.0.0000000000000000.tmp");
    let root = make_temp_path("/", 1, 1);
    assert_eq!(root, "./.temp.1.0000000000000001.tmp");
    let top = make_temp_path("/out", 3, 16);
    assert_eq!(top, "/.out.3.0000000000000010.tmp");
}

#[test]
fn make_temp_path_agrees_with_std_paths() {
    for target in ["/data/./out.txt", "dir/.", "a//b/", "./x", "/a/b/..", "rel/dir/file"] {
        let temp = make_temp_path(target, 9, 1);
        let std_parent = Path::new(target).parent().unwrap_or_else(|| Path::new("."));
        let name = Path::new(target).file_name().map(|n| n.to_string_lossy().into_owned());
        let name = name.unwrap_or_else(|| "temp".to_string());
        let expected = std_parent.join(format!(".{name}.9.0000000000000001.tmp"));
        assert_eq!(Path::new(&temp), expected.as_path(), "target {target}");
    }
}

#[test]
fn read_identity_from_key_parses_identity_field() {
    let key = object(vec![("identity", text("alice")), ("version", JsonValue::Number("1".to_string()))]);
    assert_eq!(read_identity_from_key(&key, "/vault/keys/alice.key").unwrap(), "alice");
}

#[test]
fn read_identity_from_key_errors_without_identity() {
    let key = object(vec![("other", text("x"))]);
    let err = read_identity_from_key(&key, "/vault/keys/invalid.key").unwrap_err();
    assert_eq!(err, "unable to parse identity from /vault/keys/invalid.key");
    let not_text = object(vec![("identity", JsonValue::Bool(true))]);
    assert!(read_identity_from_key(&not_text, "p").is_err());
}

#[test]
fn read_identity_from_key_errors_on_missing_prefix() {
    // "no-prefix" is not JSON, so the key file hands over no parsed value.
    let err = identity_from_key_json(None, "/tmp/keys/invalid.key").unwrap_err();
    assert!(err.contains("unable to parse identity"));
    assert_eq!(err, "unable to parse identity from /tmp/keys/invalid.key");
}

#[test]
fn identity_from_key_json_reads_parsed_label() {
    let key = object(vec![("identity", text("alice"))]);
    assert_eq!(identity_from_key_json(Some(&key), "/vault/keys/alice.key").unwrap(), "alice");
    let no_label = object(vec![("other", text("x"))]);
    assert_eq!(
        identity_from_key_json(Some(&no_label), "k").unwrap_err(),
        "unable to parse identity from k"
    );
}

#[test]
fn identity_from_backup_reads_label() {
    let backup = object(vec![("identity", text("bob@example.org"))]);
    assert_eq!(identity_from_backup(&backup).unwrap(), "bob@example.org");
    let err = identity_from_backup(&JsonValue::Null).unwrap_err();
    assert_eq!(err, "unable to infer identity from key backup");
}

#[test]
fn detect_single_identity_reports_each_case() {
    let err = detect_single_identity(&vec![]).unwrap_err();
    assert!(err.contains("no identities found"));
    assert_eq!(detect_single_identity(&vec!["alice".to_string()]).unwrap(), "alice");
    let err = detect_single_identity(&vec!["alice".to_string(), "bob".to_string()]).unwrap_err();
    assert!(err.contains("multiple identities"));
}

#[test]
fn resolve_identity_prefers_provided() {
    let many = vec!["alice".to_string(), "bob".to_string()];
    assert_eq!(resolve_identity(Some("carol"), &many).unwrap(), "carol");
    assert!(resolve_identity(None, &many).is_err());
    assert_eq!(resolve_identity(None, &vec!["dave".to_string()]).unwrap(), "dave");
}
