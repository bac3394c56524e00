use syftbox_crypto_protocol::checks::{
    bytes_write_mode, check_backup, check_export_target, check_import_archive,
    check_import_target, check_key_generate_target, check_restore_input, check_restore_target,
    private_write_step, temp_exhausted_error, vault_has_data, TempCreateOutcome, TempWriteStep,
    VaultEntry,
};
use syftbox_crypto_protocol::commands::{
    check_bundle_identity, check_restore_identity, decide_bundle_store, handle_missing_envelope,
    has_sbc_magic, inspect_ciphertext, resolve_decrypt_plan, resolve_encrypt_plan,
    validate_archive_entry_path, CipherEnvelope, FileDecryptArgs, FileEncryptArgs,
    FileInspectArgs, KeyGenerateArgs, KeyImportArgs, KeyRecoverArgs, OperationMode, PlanChannel,
    PlanPrinter,
};
use syftbox_crypto_protocol::context::AppContext;
use syftbox_crypto_protocol::plans::{
    plan_file_inspect, plan_key_generate, plan_key_import, plan_key_recover,
};

fn context() -> AppContext {
    AppContext {
        vault_path: "/v".to_string(),
        data_root: "/data".to_string(),
        shadow_root: "/shadow".to_string(),
    }
}

#[test]
fn inspect_ciphertext_marks_plaintext() {
    let inspection = inspect_ciphertext(b"no envelope");
    assert_eq!(inspection.envelope, CipherEnvelope::Plaintext);
    assert_eq!(inspection.length, 11);
}

#[test]
fn inspect_ciphertext_marks_envelopes() {
    let inspection = inspect_ciphertext(b"SBC1rest-of-envelope");
    assert_eq!(inspection.envelope, CipherEnvelope::Wrapped);
    assert!(inspection.envelope.is_wrapped());
    assert!(!CipherEnvelope::Plaintext.is_wrapped());
    assert!(!has_sbc_magic(b"SBC"));
    assert!(!has_sbc_magic(b"sbc1"));
    assert!(has_sbc_magic(b"SBC1"));
}

#[test]
fn plan_printer_formats_lines() {
    let mut plan = PlanPrinter::new("demo");
    plan.field("vault", "/v");
    plan.bool("dry-run", true);
    plan.opt("missing", None);
    plan.opt("present", Some("x"));
    plan.info("done");
    assert_eq!(plan.channel, PlanChannel::Stdout);
    assert_eq!(
        plan.lines,
        vec!["[plan] demo", "  vault: /v", "  dry-run: yes", "  present: x", "  done"]
    );
    assert_eq!(PlanPrinter::stderr("bytes write").channel, PlanChannel::Stderr);
}

#[test]
fn encrypt_plan_mirrors_relative_paths() {
    let args = FileEncryptArgs {
        relative: Some("alice/notes.txt".to_string()),
        src: None,
        dest: None,
        sender: Some("alice".to_string()),
        recipient: Some("bob".to_string()),
        dry_run: false,
    };
    let mut plan = PlanPrinter::new("file encrypt");
    let op = resolve_encrypt_plan(&context(), &args, &mut plan, None).unwrap().unwrap();
    assert_eq!(op.mode, OperationMode::Relative);
    assert_eq!(op.input_path(), "/shadow/alice/notes.txt");
    assert_eq!(op.output_path(), "/data/alice/notes.txt");

    let dargs = FileDecryptArgs {
        relative: Some("alice/notes.txt".to_string()),
        src: None,
        dest: None,
        identity: None,
        dry_run: false,
    };
    let mut plan = PlanPrinter::new("file decrypt");
    let back = resolve_decrypt_plan(&context(), &dargs, &mut plan, None).unwrap().unwrap();
    assert_eq!(back.input_path(), op.output_path());
    assert_eq!(back.output_path(), op.input_path());
    assert!(plan.lines.contains(&"  preferred identity: auto-detect".to_string()));
}

#[test]
fn encrypt_direct_requires_src_and_dest() {
    let mut args = FileEncryptArgs {
        relative: None,
        src: None,
        dest: Some("/out".to_string()),
        sender: None,
        recipient: None,
        dry_run: false,
    };
    let mut plan = PlanPrinter::new("file encrypt");
    assert_eq!(
        resolve_encrypt_plan(&context(), &args, &mut plan, None).unwrap_err(),
        "--src or --relative is required"
    );
    args.src = Some("/in".to_string());
    args.dest = None;
    assert_eq!(
        resolve_encrypt_plan(&context(), &args, &mut plan, None).unwrap_err(),
        "--dest or --relative is required"
    );
    args.dest = Some("/out".to_string());
    args.dry_run = true;
    assert!(resolve_encrypt_plan(&context(), &args, &mut plan, None).unwrap().is_none());
    assert_eq!(plan.lines.last().unwrap(), "  dry-run complete: no ciphertext produced");
    args.dry_run = false;
    let op = resolve_encrypt_plan(&context(), &args, &mut plan, None).unwrap().unwrap();
    assert_eq!((op.mode, op.input_path(), op.output_path()), (OperationMode::Direct, "/in", "/out"));
}

#[test]
fn decrypt_dry_run_produces_no_operation() {
    let args = FileDecryptArgs {
        relative: None,
        src: Some("/in".to_string()),
        dest: Some("/out".to_string()),
        identity: Some("bob".to_string()),
        dry_run: true,
    };
    let mut plan = PlanPrinter::new("file decrypt");
    assert!(resolve_decrypt_plan(&context(), &args, &mut plan, None).unwrap().is_none());
    assert_eq!(
        plan.lines,
        vec![
            "[plan] file decrypt",
            "  mode: direct file",
            "  source: /in",
            "  destination: /out",
            "  preferred identity: bob",
            "  dry-run complete: no plaintext extracted",
        ]
    );
}

#[test]
fn missing_envelope_is_plaintext_only_in_relative_mode() {
    assert_eq!(
        handle_missing_envelope(OperationMode::Relative, "/data/x").unwrap(),
        "  SBC envelope missing – treating payload as plaintext (relative mode)"
    );
    assert_eq!(
        handle_missing_envelope(OperationMode::Direct, "/data/x").unwrap_err(),
        "input /data/x is not an SBC envelope (magic missing)"
    );
}

#[test]
fn archive_entry_paths_must_stay_inside() {
    assert!(validate_archive_entry_path("keys/alice.key").is_ok());
    assert!(validate_archive_entry_path("./keys/alice.key").is_ok());
    assert!(validate_archive_entry_path("a..b/c").is_ok());
    assert_eq!(
        validate_archive_entry_path("../evil").unwrap_err(),
        "unsafe archive entry path: ../evil"
    );
    assert!(validate_archive_entry_path("keys/../../evil").is_err());
    assert!(validate_archive_entry_path("keys/..").is_err());
    assert!(validate_archive_entry_path("/etc/passwd").is_err());
}

#[test]
fn bundle_identity_check_needs_force_on_mismatch() {
    assert_eq!(check_bundle_identity(Some("alice"), "alice", false).unwrap(), None);
    assert_eq!(check_bundle_identity(None, "mallory", false).unwrap(), None);
    assert_eq!(
        check_bundle_identity(Some("alice"), "mallory", false).unwrap_err(),
        "bundle identity 'mallory' does not match expected 'alice' (use --force to override)"
    );
    assert_eq!(
        check_bundle_identity(Some("alice"), "mallory", true).unwrap().unwrap(),
        "  warning: bundle identity 'mallory' differs from expected 'alice'; proceeding due to --force"
    );
}

#[test]
fn cached_bundle_pins_first_fingerprint() {
    let new = decide_bundle_store("alice", "fp1", None, false, "/v/bundles/alice.json").unwrap();
    assert!(new.store);
    assert_eq!(new.messages, vec!["  no cached bundle for alice; will store at /v/bundles/alice.json"]);

    let same = decide_bundle_store("alice", "fp1", Some("fp1"), true, "/v/bundles/alice.json").unwrap();
    assert!(!same.store);
    assert_eq!(
        same.messages,
        vec![
            "  cached bundle already matches fingerprint fp1 – leaving file untouched",
            "  note: --force ignored because bundle is unchanged",
        ]
    );

    let err = decide_bundle_store("alice", "fp2", Some("fp1"), false, "/v/bundles/alice.json").unwrap_err();
    assert_eq!(err, "bundle for alice already cached with fingerprint fp1 – new fingerprint fp2 requires --force");

    let forced = decide_bundle_store("alice", "fp2", Some("fp1"), true, "/v/bundles/alice.json").unwrap();
    assert!(forced.store);
    assert_eq!(forced.messages, vec!["  warning: overwriting cached bundle for alice (fp1 -> fp2)"]);
}

#[test]
fn restore_identity_must_match_expected() {
    assert_eq!(check_restore_identity(None, "alice").unwrap(), "alice");
    assert_eq!(check_restore_identity(Some("alice"), "alice").unwrap(), "alice");
    assert_eq!(
        check_restore_identity(Some("bob"), "alice").unwrap_err(),
        "backup identity 'alice' does not match expected 'bob'"
    );
}

#[test]
fn write_targets_need_overwrite() {
    assert!(check_key_generate_target("/v/keys/a.key", false, false).is_ok());
    assert!(check_key_generate_target("/v/keys/a.key", true, true).is_ok());
    assert_eq!(
        check_key_generate_target("/v/keys/a.key", true, false).unwrap_err(),
        "key material already exists at /v/keys/a.key (use --overwrite to replace)"
    );
    assert_eq!(
        check_backup("a", "/v/keys/a.key", false, "/out", false, false).unwrap_err(),
        "key material for a not found at /v/keys/a.key"
    );
    assert_eq!(
        check_backup("a", "/v/keys/a.key", true, "/out", true, false).unwrap_err(),
        "output /out already exists (use --overwrite to replace)"
    );
    assert!(check_backup("a", "/v/keys/a.key", true, "/out", true, true).is_ok());
    assert_eq!(check_restore_input("/in", false).unwrap_err(), "input /in not found");
    assert!(check_restore_input("/in", true).is_ok());
    assert_eq!(
        check_restore_target("a", "/v/keys/a.key", true, false).unwrap_err(),
        "key for a already exists at /v/keys/a.key (use --overwrite to replace)"
    );
    assert_eq!(
        check_export_target("/snap.tgz", true, false).unwrap_err(),
        "archive /snap.tgz already exists (use --overwrite to replace)"
    );
    assert_eq!(check_import_archive("/snap.tgz", false).unwrap_err(), "archive /snap.tgz not found");
    assert_eq!(
        check_import_target("/v", true, false).unwrap_err(),
        "vault /v already contains data; rerun with --force to replace"
    );
    assert!(check_import_target("/v", true, true).is_ok());
    assert!(check_import_target("/v", false, false).is_ok());
}

#[test]
fn vault_data_ignores_hidden_and_empty_directories() {
    let entry = |name: &str, is_dir: bool, dir_nonempty: bool| VaultEntry {
        name: name.to_string(),
        is_dir,
        dir_nonempty,
    };
    assert!(!vault_has_data(&vec![]));
    assert!(!vault_has_data(&vec![entry("keys", true, false), entry(".hidden", false, false)]));
    assert!(!vault_has_data(&vec![entry(".git", true, true)]));
    assert!(vault_has_data(&vec![entry("keys", true, true)]));
    assert!(vault_has_data(&vec![entry("notes.txt", false, false)]));
}

#[test]
fn private_temp_file_retries_sixteen_names() {
    assert_eq!(private_write_step(0, TempCreateOutcome::Written), TempWriteStep::Commit);
    assert_eq!(private_write_step(3, TempCreateOutcome::Failed), TempWriteStep::Fail);
    assert_eq!(private_write_step(0, TempCreateOutcome::AlreadyExists), TempWriteStep::Retry);
    assert_eq!(private_write_step(14, TempCreateOutcome::AlreadyExists), TempWriteStep::Retry);
    assert_eq!(private_write_step(15, TempCreateOutcome::AlreadyExists), TempWriteStep::GiveUp);
    assert_eq!(temp_exhausted_error("/v/k"), "unable to create unique private temp file for /v/k");
}

#[test]
fn bytes_write_mode_depends_on_recipients() {
    assert_eq!(bytes_write_mode(0, false), "plaintext");
    assert_eq!(bytes_write_mode(2, false), "encrypted");
    assert_eq!(bytes_write_mode(2, true), "plaintext");
}

#[test]
fn key_generate_plan_lists_steps() {
    let args = KeyGenerateArgs {
        identity: "alice".to_string(),
        bundle_out: Some("alice/public/did.json".to_string()),
        overwrite: false,
        dry_run: true,
    };
    let plan = plan_key_generate(&context(), &args, None);
    assert_eq!(
        plan.lines,
        vec![
            "[plan] generate identity material",
            "  vault: /v",
            "  identity: alice",
            "  overwrite existing: no",
            "  export public bundle to: /data/alice/public/did.json",
            "  dry-run: no files will be written",
            "  derive recovery key + X3DH material via syftbox-crypto-protocol",
            "  persist private JWKS into the vault and emit DID bundle artifacts",
            "  dry-run complete: no changes were made",
        ]
    );
}

#[test]
fn key_import_plan_resolves_bundle() {
    let args = KeyImportArgs {
        bundle: "alice/did.json".to_string(),
        expected_identity: None,
        verify_only: true,
        force: false,
    };
    let (plan, path) = plan_key_import(&context(), &args, None);
    assert_eq!(path, "/data/alice/did.json");
    assert_eq!(plan.lines[3], "  expected identity: auto-detect");
    assert_eq!(plan.lines[4], "  verification only: yes");
    assert_eq!(plan.lines.len(), 7);
}

#[test]
fn key_recover_plan_touches_nothing() {
    let args = KeyRecoverArgs {
        package: "pkg.bin".to_string(),
        identity: None,
        output: None,
        dry_run: true,
    };
    let plan = plan_key_recover(&context(), &args);
    assert_eq!(plan.lines[3], "  target identity label: derive from package");
    assert_eq!(plan.lines.last().unwrap(), "  dry-run complete: no changes were made");
}

#[test]
fn file_inspect_header() {
    let args = FileInspectArgs { input: "x.bin".to_string(), identity: Some("bob".to_string()), verbose: false };
    let (plan, path) = plan_file_inspect(&context(), &args, None);
    assert_eq!(path, "/data/x.bin");
    assert_eq!(
        plan.lines,
        vec![
            "[plan] inspect encrypted blob",
            "  vault: /v",
            "  input (encrypted): /data/x.bin",
            "  identity: bob",
            "  verbose: no",
        ]
    );
}
