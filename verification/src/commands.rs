//! The `sbc` command line: its arguments, the plan it prints, and the
//! decisions its commands take before touching files.

use crate::context::{
    home_view, opt_string_view, resolve_data_path, resolve_shadow_path, spec_resolve_under_root,
    yes_no, AppContext,
};
use crate::text::{chars_of, concat, str_eq};
use vstd::prelude::*;

verus! {

// ----------------------------------------------------------------------
// Arguments
// ----------------------------------------------------------------------

/// SyftBox Crypto (sbc) CLI – manage X3DH keys and files.
#[derive(Debug)]
pub struct Cli {
    /// Path to the vault (default: ~/.sbc).
    pub vault: Option<String>,
    /// Root directory that SyftBox syncs.
    pub data_root: Option<String>,
    /// Shadow directory for decrypted data.
    pub shadow_root: Option<String>,
    pub command: Command,
}

/// Top-level commands.
#[derive(Debug)]
pub enum Command {
    Bytes(BytesCommand),
    Key(KeyCommand),
    File(FileCommand),
    Vault(VaultCommand),
}

/// `sbc bytes` subcommands.
#[derive(Debug)]
pub enum BytesCommand {
    Write(BytesWriteArgs),
    Read(BytesReadArgs),
}

/// Arguments of `sbc bytes write`.
#[derive(Debug)]
pub struct BytesWriteArgs {
    pub relative: String,
    pub recipients: Vec<String>,
    pub input: Option<String>,
    pub plaintext: bool,
    pub overwrite: bool,
    pub hint: Option<String>,
}

/// Arguments of `sbc bytes read`.
#[derive(Debug)]
pub struct BytesReadArgs {
    pub relative: String,
    pub identity: Option<String>,
    pub require_envelope: bool,
    pub output: Option<String>,
}

/// `sbc key` subcommands.
#[derive(Debug)]
pub enum KeyCommand {
    Generate(KeyGenerateArgs),
    Import(KeyImportArgs),
    Recover(KeyRecoverArgs),
    List(KeyListArgs),
    Verify(KeyVerifyArgs),
    Backup(KeyBackupArgs),
    Restore(KeyRestoreArgs),
}

/// Arguments of `sbc key generate`.
#[derive(Debug)]
pub struct KeyGenerateArgs {
    pub identity: String,
    pub bundle_out: Option<String>,
    pub overwrite: bool,
    pub dry_run: bool,
}

/// Arguments of `sbc key import`.
#[derive(Debug)]
pub struct KeyImportArgs {
    pub bundle: String,
    pub expected_identity: Option<String>,
    pub verify_only: bool,
    pub force: bool,
}

/// Arguments of `sbc key recover`.
#[derive(Debug)]
pub struct KeyRecoverArgs {
    pub package: String,
    pub identity: Option<String>,
    pub output: Option<String>,
    pub dry_run: bool,
}

/// Arguments of `sbc key list`.
#[derive(Debug)]
pub struct KeyListArgs {
    pub identity: Option<String>,
    pub verbose: bool,
}

/// Arguments of `sbc key verify`.
#[derive(Debug)]
pub struct KeyVerifyArgs {
    pub bundle: String,
    pub expected_identity: Option<String>,
    pub verify_only: bool,
    pub json: bool,
}

/// Arguments of `sbc key backup`.
#[derive(Debug)]
pub struct KeyBackupArgs {
    pub identity: String,
    pub output: String,
    pub overwrite: bool,
}

/// Arguments of `sbc key restore`.
#[derive(Debug)]
pub struct KeyRestoreArgs {
    pub input: String,
    pub identity: Option<String>,
    pub overwrite: bool,
}

/// `sbc file` subcommands.
#[derive(Debug)]
pub enum FileCommand {
    Encrypt(FileEncryptArgs),
    Decrypt(FileDecryptArgs),
    Inspect(FileInspectArgs),
}

/// Arguments of `sbc file encrypt`.
#[derive(Debug)]
pub struct FileEncryptArgs {
    pub relative: Option<String>,
    pub src: Option<String>,
    pub dest: Option<String>,
    pub sender: Option<String>,
    pub recipient: Option<String>,
    pub dry_run: bool,
}

/// Arguments of `sbc file decrypt`.
#[derive(Debug)]
pub struct FileDecryptArgs {
    pub relative: Option<String>,
    pub src: Option<String>,
    pub dest: Option<String>,
    pub identity: Option<String>,
    pub dry_run: bool,
}

/// Arguments of `sbc file inspect`.
#[derive(Debug)]
pub struct FileInspectArgs {
    pub input: String,
    pub identity: Option<String>,
    pub verbose: bool,
}

/// `sbc vault` subcommands.
#[derive(Debug)]
pub enum VaultCommand {
    Export(VaultExportArgs),
    Import(VaultImportArgs),
}

/// Arguments of `sbc vault export`.
#[derive(Debug)]
pub struct VaultExportArgs {
    pub output: String,
    pub overwrite: bool,
}

/// Arguments of `sbc vault import`.
#[derive(Debug)]
pub struct VaultImportArgs {
    pub archive: String,
    pub force: bool,
}

// ----------------------------------------------------------------------
// Plan printer
// ----------------------------------------------------------------------

/// Where plan lines go.
#[derive(Debug, Clone, Copy, PartialEq, Eq, Structural)]
pub enum PlanChannel {
    Stdout,
    Stderr,
}

/// The lines a command announces before acting, in order.
#[derive(Debug)]
pub struct PlanPrinter {
    pub channel: PlanChannel,
    pub lines: Vec<String>,
}

/// Lines as text.
pub open spec fn lines_view(lines: Seq<String>) -> Seq<Seq<char>> {
    Seq::new(lines.len(), |i: int| lines[i]@)
}

/// `[plan] <title>`.
pub open spec fn spec_title_line(title: Seq<char>) -> Seq<char> {
    "[plan] "@ + title
}

/// `  <name>: <value>`.
pub open spec fn spec_field_line(name: Seq<char>, value: Seq<char>) -> Seq<char> {
    "  "@ + name + ": "@ + value
}

/// `  <message>`.
pub open spec fn spec_info_line(message: Seq<char>) -> Seq<char> {
    "  "@ + message
}

/// The text of yes/no.
pub open spec fn spec_yes_no(value: bool) -> Seq<char> {
    if value {
        "yes"@
    } else {
        "no"@
    }
}

impl PlanPrinter {
    /// The printer's lines as text.
    pub open spec fn spec_lines(&self) -> Seq<Seq<char>> {
        lines_view(self.lines@)
    }

    /// A plan on standard output.
    pub fn new(title: &str) -> (p: Self)
        ensures
            p.channel == PlanChannel::Stdout,
            p.spec_lines() == seq![spec_title_line(title@)],
    {
        Self::stdout(title)
    }

    /// A plan on standard output, announcing its title.
    pub fn stdout(title: &str) -> (p: Self)
        ensures
            p.channel == PlanChannel::Stdout,
            p.spec_lines() == seq![spec_title_line(title@)],
    {
        let mut lines: Vec<String> = Vec::new();
        lines.push(concat("[plan] ", title));
        let p = PlanPrinter { channel: PlanChannel::Stdout, lines };
        assert(p.spec_lines() =~= seq![spec_title_line(title@)]);
        p
    }

    /// A plan on standard error, announcing its title.
    pub fn stderr(title: &str) -> (p: Self)
        ensures
            p.channel == PlanChannel::Stderr,
            p.spec_lines() == seq![spec_title_line(title@)],
    {
        let mut lines: Vec<String> = Vec::new();
        lines.push(concat("[plan] ", title));
        let p = PlanPrinter { channel: PlanChannel::Stderr, lines };
        assert(p.spec_lines() =~= seq![spec_title_line(title@)]);
        p
    }

    /// Announce a named value.
    pub fn field(&mut self, name: &str, value: &str)
        ensures
            final(self).channel == old(self).channel,
            final(self).spec_lines() == old(self).spec_lines().push(spec_field_line(name@, value@)),
    {
        let mut line = concat("  ", name);
        line.append(": ");
        line.append(value);
        self.lines.push(line);
        assert(self.spec_lines() =~= old(self).spec_lines().push(spec_field_line(name@, value@)));
    }

    /// Announce a flag as yes/no.
    pub fn bool(&mut self, name: &str, value: bool)
        ensures
            final(self).channel == old(self).channel,
            final(self).spec_lines() == old(self).spec_lines().push(
                spec_field_line(name@, spec_yes_no(value)),
            ),
    {
        self.field(name, yes_no(value));
    }

    /// Announce a value when there is one.
    pub fn opt(&mut self, name: &str, value: Option<&str>)
        ensures
            final(self).channel == old(self).channel,
            final(self).spec_lines() == match value {
                Some(v) => old(self).spec_lines().push(spec_field_line(name@, v@)),
                None => old(self).spec_lines(),
            },
    {
        if let Some(v) = value {
            self.field(name, v);
        }
    }

    /// Announce a message.
    pub fn info(&mut self, message: &str)
        ensures
            final(self).channel == old(self).channel,
            final(self).spec_lines() == old(self).spec_lines().push(spec_info_line(message@)),
    {
        self.lines.push(concat("  ", message));
        assert(self.spec_lines() =~= old(self).spec_lines().push(spec_info_line(message@)));
    }
}

// ----------------------------------------------------------------------
// File encrypt / decrypt plans
// ----------------------------------------------------------------------

/// Relative mode mirrors between the datasite and shadow trees; direct
/// mode works on two given files.
#[derive(Debug, Clone, Copy, PartialEq, Eq, Structural)]
pub enum OperationMode {
    Relative,
    Direct,
}

/// The input and output file of an operation.
#[derive(Debug)]
pub struct OperationPaths {
    pub mode: OperationMode,
    pub input: String,
    pub output: String,
}

impl OperationPaths {
    /// The file read.
    pub fn input_path(&self) -> (p: &str)
        ensures
            p@ == self.input@,
    {
        self.input.as_str()
    }

    /// The file written.
    pub fn output_path(&self) -> (p: &str)
        ensures
            p@ == self.output@,
    {
        self.output.as_str()
    }
}

/// An optional borrowed text as plain characters.
pub open spec fn opt_str_view(s: Option<&str>) -> Option<Seq<char>> {
    match s {
        Some(v) => Some(v@),
        None => None,
    }
}

/// The operation of `file encrypt`: in relative mode from the shadow tree
/// to the datasite; in direct mode from `--src` to `--dest`. `None` on a
/// dry run.
pub open spec fn spec_encrypt_plan(
    context: AppContext,
    relative: Option<Seq<char>>,
    src: Option<Seq<char>>,
    dest: Option<Seq<char>>,
    dry_run: bool,
    home: Option<Seq<char>>,
) -> Result<Option<(OperationMode, Seq<char>, Seq<char>)>, Seq<char>> {
    match relative {
        Some(r) => if dry_run {
            Ok(None)
        } else {
            Ok(
                Some(
                    (
                        OperationMode::Relative,
                        spec_resolve_under_root(context.shadow_root@, r, home),
                        spec_resolve_under_root(context.data_root@, r, home),
                    ),
                ),
            )
        },
        None => match src {
            None => Err("--src or --relative is required"@),
            Some(s) => match dest {
                None => Err("--dest or --relative is required"@),
                Some(d) => if dry_run {
                    Ok(None)
                } else {
                    Ok(Some((OperationMode::Direct, s, d)))
                },
            },
        },
    }
}

/// The operation of `file decrypt`: in relative mode from the datasite to
/// the shadow tree; in direct mode from `--src` to `--dest`.
pub open spec fn spec_decrypt_plan(
    context: AppContext,
    relative: Option<Seq<char>>,
    src: Option<Seq<char>>,
    dest: Option<Seq<char>>,
    dry_run: bool,
    home: Option<Seq<char>>,
) -> Result<Option<(OperationMode, Seq<char>, Seq<char>)>, Seq<char>> {
    match relative {
        Some(r) => if dry_run {
            Ok(None)
        } else {
            Ok(
                Some(
                    (
                        OperationMode::Relative,
                        spec_resolve_under_root(context.data_root@, r, home),
                        spec_resolve_under_root(context.shadow_root@, r, home),
                    ),
                ),
            )
        },
        None => match src {
            None => Err("--src or --relative is required"@),
            Some(s) => match dest {
                None => Err("--dest or --relative is required"@),
                Some(d) => if dry_run {
                    Ok(None)
                } else {
                    Ok(Some((OperationMode::Direct, s, d)))
                },
            },
        },
    }
}

/// Relative mode mirrors the two trees: `file encrypt` reads the shadow
/// copy of a relative path and writes its datasite copy, and `file decrypt`
/// reads that datasite copy and writes the shadow copy back.
pub proof fn law_relative_mode_mirrors(
    context: AppContext,
    relative: Seq<char>,
    encrypt_src: Option<Seq<char>>,
    encrypt_dest: Option<Seq<char>>,
    decrypt_src: Option<Seq<char>>,
    decrypt_dest: Option<Seq<char>>,
    home: Option<Seq<char>>,
)
    ensures
        spec_encrypt_plan(context, Some(relative), encrypt_src, encrypt_dest, false, home) matches Ok(
            Some((OperationMode::Relative, plain, sealed)),
        ) && spec_decrypt_plan(context, Some(relative), decrypt_src, decrypt_dest, false, home)
            == Ok::<Option<(OperationMode, Seq<char>, Seq<char>)>, Seq<char>>(
            Some((OperationMode::Relative, sealed, plain)),
        ),
{
}

/// In direct mode both commands read the `--src` file and write the
/// `--dest` file.
pub proof fn law_direct_mode_reads_src_writes_dest(
    context: AppContext,
    src: Seq<char>,
    dest: Seq<char>,
    home: Option<Seq<char>>,
)
    ensures
        spec_encrypt_plan(context, None, Some(src), Some(dest), false, home) matches Ok(
            Some((mode, input, output)),
        ) && mode == OperationMode::Direct && input == src && output == dest,
        spec_decrypt_plan(context, None, Some(src), Some(dest), false, home) matches Ok(
            Some((mode, input, output)),
        ) && mode == OperationMode::Direct && input == src && output == dest,
{
}

/// A dry run hands back no operation, in relative as in direct mode: it
/// fails exactly as the real run does, and where the real run has an
/// operation to perform the dry run has none.
pub proof fn law_dry_run_performs_nothing(
    context: AppContext,
    relative: Option<Seq<char>>,
    src: Option<Seq<char>>,
    dest: Option<Seq<char>>,
    home: Option<Seq<char>>,
)
    ensures
        !(spec_encrypt_plan(context, relative, src, dest, true, home) matches Ok(Some(_))),
        !(spec_decrypt_plan(context, relative, src, dest, true, home) matches Ok(Some(_))),
        spec_encrypt_plan(context, relative, src, dest, false, home) is Ok <==> spec_encrypt_plan(
            context,
            relative,
            src,
            dest,
            true,
            home,
        ) is Ok,
        spec_decrypt_plan(context, relative, src, dest, false, home) is Ok <==> spec_decrypt_plan(
            context,
            relative,
            src,
            dest,
            true,
            home,
        ) is Ok,
        spec_encrypt_plan(context, relative, src, dest, false, home) matches Err(m)
            ==> spec_encrypt_plan(context, relative, src, dest, true, home) == Err::<
            Option<(OperationMode, Seq<char>, Seq<char>)>,
            Seq<char>,
        >(m),
        spec_decrypt_plan(context, relative, src, dest, false, home) matches Err(m)
            ==> spec_decrypt_plan(context, relative, src, dest, true, home) == Err::<
            Option<(OperationMode, Seq<char>, Seq<char>)>,
            Seq<char>,
        >(m),
        relative is Some ==> spec_encrypt_plan(context, relative, src, dest, true, home) == Ok::<
            Option<(OperationMode, Seq<char>, Seq<char>)>,
            Seq<char>,
        >(None),
        relative is Some ==> spec_decrypt_plan(context, relative, src, dest, true, home) == Ok::<
            Option<(OperationMode, Seq<char>, Seq<char>)>,
            Seq<char>,
        >(None),
{
}

/// `r` is the plan outcome `s` describes.
pub open spec fn plan_result_is(
    r: Result<Option<OperationPaths>, String>,
    s: Result<Option<(OperationMode, Seq<char>, Seq<char>)>, Seq<char>>,
) -> bool {
    match s {
        Ok(None) => r matches Ok(None),
        Ok(Some((mode, input, output))) => r matches Ok(Some(p)) && p.mode == mode && p.input@
            == input && p.output@ == output,
        Err(m) => r matches Err(e) && e@ == m,
    }
}

/// A field line when there is a value.
pub open spec fn opt_field_lines(name: Seq<char>, value: Option<Seq<char>>) -> Seq<Seq<char>> {
    match value {
        Some(v) => seq![spec_field_line(name, v)],
        None => Seq::empty(),
    }
}

/// The lines `file encrypt` announces while planning (after its title and
/// dry-run flag).
pub open spec fn spec_encrypt_plan_lines(
    context: AppContext,
    relative: Option<Seq<char>>,
    src: Option<Seq<char>>,
    dest: Option<Seq<char>>,
    sender: Option<Seq<char>>,
    recipient: Option<Seq<char>>,
    dry_run: bool,
    home: Option<Seq<char>>,
) -> Seq<Seq<char>> {
    match relative {
        Some(r) => seq![
            spec_field_line("mode"@, "datasite/shadow (relative)"@),
            spec_field_line("vault"@, context.vault_path@),
            spec_field_line("data root"@, context.data_root@),
            spec_field_line("shadow root"@, context.shadow_root@),
            spec_field_line("relative path"@, r),
        ] + opt_field_lines("recipient"@, recipient) + opt_field_lines("sender identity"@, sender)
            + if dry_run {
            seq![spec_info_line("dry-run complete: no ciphertext produced"@)]
        } else {
            seq![
                spec_field_line(
                    "shadow source"@,
                    spec_resolve_under_root(context.shadow_root@, r, home),
                ),
                spec_field_line(
                    "datasite destination"@,
                    spec_resolve_under_root(context.data_root@, r, home),
                ),
            ]
        },
        None => match (src, dest) {
            (Some(s), Some(d)) => seq![
                spec_field_line("mode"@, "direct file"@),
                spec_field_line("source"@, s),
                spec_field_line("destination"@, d),
            ] + opt_field_lines("sender identity"@, sender) + opt_field_lines(
                "recipient identity"@,
                recipient,
            ) + if dry_run {
                seq![spec_info_line("dry-run complete: no ciphertext produced"@)]
            } else {
                Seq::empty()
            },
            _ => Seq::empty(),
        },
    }
}

/// Plan `file encrypt`, announcing the plan. The caller makes sure the
/// vault layout exists before a relative-mode operation.
pub fn resolve_encrypt_plan(
    context: &AppContext,
    args: &FileEncryptArgs,
    plan: &mut PlanPrinter,
    home: Option<&str>,
) -> (result: Result<Option<OperationPaths>, String>)
    ensures
        plan_result_is(
            result,
            spec_encrypt_plan(
                *context,
                opt_string_view(args.relative),
                opt_string_view(args.src),
                opt_string_view(args.dest),
                args.dry_run,
                home_view(home),
            ),
        ),
        final(plan).channel == old(plan).channel,
        final(plan).spec_lines() == old(plan).spec_lines() + spec_encrypt_plan_lines(
            *context,
            opt_string_view(args.relative),
            opt_string_view(args.src),
            opt_string_view(args.dest),
            opt_string_view(args.sender),
            opt_string_view(args.recipient),
            args.dry_run,
            home_view(home),
        ),
{
    let ghost start = plan.spec_lines();
    let ghost lines = spec_encrypt_plan_lines(
        *context,
        opt_string_view(args.relative),
        opt_string_view(args.src),
        opt_string_view(args.dest),
        opt_string_view(args.sender),
        opt_string_view(args.recipient),
        args.dry_run,
        home_view(home),
    );
    match &args.relative {
        Some(relative) => {
            plan.field("mode", "datasite/shadow (relative)");
            plan.field("vault", context.vault_path.as_str());
            plan.field("data root", context.data_root.as_str());
            plan.field("shadow root", context.shadow_root.as_str());
            plan.field("relative path", relative.as_str());
            let ghost head = plan.spec_lines();
            plan.opt("recipient", option_str(&args.recipient));
            plan.opt("sender identity", option_str(&args.sender));
            let ghost with_ids = plan.spec_lines();
            proof {
                assert(with_ids =~= head + opt_field_lines("recipient"@, opt_string_view(args.recipient))
                    + opt_field_lines("sender identity"@, opt_string_view(args.sender)));
            }
            if args.dry_run {
                plan.info("dry-run complete: no ciphertext produced");
                assert(plan.spec_lines() =~= start + lines);
                return Ok(None);
            }
            let shadow_path = resolve_shadow_path(context, relative.as_str(), home);
            let data_path = resolve_data_path(context, relative.as_str(), home);
            plan.field("shadow source", shadow_path.as_str());
            plan.field("datasite destination", data_path.as_str());
            assert(plan.spec_lines() =~= start + lines);
            Ok(Some(OperationPaths { mode: OperationMode::Relative, input: shadow_path, output: data_path }))
        },
        None => {
            let src = match &args.src {
                Some(s) => s,
                None => {
                    assert(start + lines =~= start);
                    return Err("--src or --relative is required".to_owned());
                },
            };
            let dest = match &args.dest {
                Some(d) => d,
                None => {
                    assert(start + lines =~= start);
                    return Err("--dest or --relative is required".to_owned());
                },
            };
            plan.field("mode", "direct file");
            plan.field("source", src.as_str());
            plan.field("destination", dest.as_str());
            let ghost head = plan.spec_lines();
            plan.opt("sender identity", option_str(&args.sender));
            plan.opt("recipient identity", option_str(&args.recipient));
            let ghost with_ids = plan.spec_lines();
            proof {
                assert(with_ids =~= head + opt_field_lines("sender identity"@, opt_string_view(args.sender))
                    + opt_field_lines("recipient identity"@, opt_string_view(args.recipient)));
            }
            if args.dry_run {
                plan.info("dry-run complete: no ciphertext produced");
                assert(plan.spec_lines() =~= start + lines);
                return Ok(None);
            }
            assert(plan.spec_lines() =~= start + lines);
            Ok(Some(OperationPaths { mode: OperationMode::Direct, input: src.clone(), output: dest.clone() }))
        },
    }
}

/// The line naming the identity `file decrypt` will use.
pub open spec fn preferred_identity_line(identity: Option<Seq<char>>) -> Seq<char> {
    match identity {
        Some(i) => spec_field_line("preferred identity"@, i),
        None => spec_field_line("preferred identity"@, "auto-detect"@),
    }
}

/// The lines `file decrypt` announces while planning (after its title and
/// dry-run flag).
pub open spec fn spec_decrypt_plan_lines(
    context: AppContext,
    relative: Option<Seq<char>>,
    src: Option<Seq<char>>,
    dest: Option<Seq<char>>,
    identity: Option<Seq<char>>,
    dry_run: bool,
    home: Option<Seq<char>>,
) -> Seq<Seq<char>> {
    match relative {
        Some(r) => seq![
            spec_field_line("mode"@, "datasite/shadow (relative)"@),
            spec_field_line("vault"@, context.vault_path@),
            spec_field_line("data root"@, context.data_root@),
            spec_field_line("shadow root"@, context.shadow_root@),
            spec_field_line("relative path"@, r),
            preferred_identity_line(identity),
        ] + if dry_run {
            seq![spec_info_line("dry-run complete: no plaintext extracted"@)]
        } else {
            seq![
                spec_field_line(
                    "datasite source"@,
                    spec_resolve_under_root(context.data_root@, r, home),
                ),
                spec_field_line(
                    "shadow destination"@,
                    spec_resolve_under_root(context.shadow_root@, r, home),
                ),
            ]
        },
        None => match (src, dest) {
            (Some(s), Some(d)) => seq![
                spec_field_line("mode"@, "direct file"@),
                spec_field_line("source"@, s),
                spec_field_line("destination"@, d),
                preferred_identity_line(identity),
            ] + if dry_run {
                seq![spec_info_line("dry-run complete: no plaintext extracted"@)]
            } else {
                Seq::empty()
            },
            _ => Seq::empty(),
        },
    }
}

/// Announce the identity `file decrypt` prefers.
fn preferred_identity(plan: &mut PlanPrinter, identity: &Option<String>)
    ensures
        final(plan).channel == old(plan).channel,
        final(plan).spec_lines() == old(plan).spec_lines().push(preferred_identity_line(opt_string_view(*identity))),
{
    match identity {
        Some(identity) => plan.field("preferred identity", identity.as_str()),
        None => plan.field("preferred identity", "auto-detect"),
    }
}

/// Plan `file decrypt`, announcing the plan. The caller makes sure the
/// vault layout exists before a relative-mode operation.
pub fn resolve_decrypt_plan(
    context: &AppContext,
    args: &FileDecryptArgs,
    plan: &mut PlanPrinter,
    home: Option<&str>,
) -> (result: Result<Option<OperationPaths>, String>)
    ensures
        plan_result_is(
            result,
            spec_decrypt_plan(
                *context,
                opt_string_view(args.relative),
                opt_string_view(args.src),
                opt_string_view(args.dest),
                args.dry_run,
                home_view(home),
            ),
        ),
        final(plan).channel == old(plan).channel,
        final(plan).spec_lines() == old(plan).spec_lines() + spec_decrypt_plan_lines(
            *context,
            opt_string_view(args.relative),
            opt_string_view(args.src),
            opt_string_view(args.dest),
            opt_string_view(args.identity),
            args.dry_run,
            home_view(home),
        ),
{
    let ghost start = plan.spec_lines();
    let ghost lines = spec_decrypt_plan_lines(
        *context,
        opt_string_view(args.relative),
        opt_string_view(args.src),
        opt_string_view(args.dest),
        opt_string_view(args.identity),
        args.dry_run,
        home_view(home),
    );
    match &args.relative {
        Some(relative) => {
            plan.field("mode", "datasite/shadow (relative)");
            plan.field("vault", context.vault_path.as_str());
            plan.field("data root", context.data_root.as_str());
            plan.field("shadow root", context.shadow_root.as_str());
            plan.field("relative path", relative.as_str());
            preferred_identity(plan, &args.identity);
            if args.dry_run {
                plan.info("dry-run complete: no plaintext extracted");
                assert(plan.spec_lines() =~= start + lines);
                return Ok(None);
            }
            let data_path = resolve_data_path(context, relative.as_str(), home);
            let shadow_path = resolve_shadow_path(context, relative.as_str(), home);
            plan.field("datasite source", data_path.as_str());
            plan.field("shadow destination", shadow_path.as_str());
            assert(plan.spec_lines() =~= start + lines);
            Ok(Some(OperationPaths { mode: OperationMode::Relative, input: data_path, output: shadow_path }))
        },
        None => {
            let src = match &args.src {
                Some(s) => s,
                None => {
                    assert(start + lines =~= start);
                    return Err("--src or --relative is required".to_owned());
                },
            };
            let dest = match &args.dest {
                Some(d) => d,
                None => {
                    assert(start + lines =~= start);
                    return Err("--dest or --relative is required".to_owned());
                },
            };
            plan.field("mode", "direct file");
            plan.field("source", src.as_str());
            plan.field("destination", dest.as_str());
            preferred_identity(plan, &args.identity);
            if args.dry_run {
                plan.info("dry-run complete: no plaintext extracted");
                assert(plan.spec_lines() =~= start + lines);
                return Ok(None);
            }
            assert(plan.spec_lines() =~= start + lines);
            Ok(Some(OperationPaths { mode: OperationMode::Direct, input: src.clone(), output: dest.clone() }))
        },
    }
}

/// The error when `file encrypt` has no recipient.
pub open spec fn missing_recipient_message() -> Seq<char> {
    "--recipient is required when encrypting files (target identity missing)"@
}

/// `file encrypt` needs a recipient.
pub fn require_recipient(recipient: Option<&str>) -> (r: Result<String, String>)
    ensures
        match recipient {
            Some(v) => r matches Ok(s) && s@ == v@,
            None => r matches Err(e) && e@ == missing_recipient_message(),
        },
{
    match recipient {
        Some(v) => Ok(v.to_owned()),
        None => Err("--recipient is required when encrypting files (target identity missing)".to_owned()),
    }
}

/// The line reporting where an operation wrote its output: relative mode
/// writes atomically into a tree, direct mode to the given file.
pub open spec fn spec_wrote_line(mode: OperationMode, decrypted: bool, path: Seq<char>) -> Seq<char> {
    let what = if decrypted {
        "decrypted output"@
    } else {
        "SBC envelope"@
    };
    match mode {
        OperationMode::Relative => "  wrote "@ + what + " atomically to "@ + path,
        OperationMode::Direct => "  wrote "@ + what + " to "@ + path,
    }
}

/// The line reporting where `file encrypt` or `file decrypt` wrote.
pub fn wrote_line(mode: OperationMode, decrypted: bool, path: &str) -> (line: String)
    ensures
        line@ == spec_wrote_line(mode, decrypted, path@),
{
    let what = if decrypted {
        "decrypted output"
    } else {
        "SBC envelope"
    };
    let mut line = concat("  wrote ", what);
    match mode {
        OperationMode::Relative => line.append(" atomically to "),
        OperationMode::Direct => line.append(" to "),
    }
    line.append(path);
    line
}

/// The text of an optional string.
fn option_str(s: &Option<String>) -> (r: Option<&str>)
    ensures
        match s {
            Some(v) => r matches Some(t) && t@ == v@,
            None => r is None,
        },
{
    match s {
        Some(v) => Some(v.as_str()),
        None => None,
    }
}

/// The note printed when a relative-mode input has no envelope.
pub open spec fn missing_envelope_note() -> Seq<char> {
    "  SBC envelope missing – treating payload as plaintext (relative mode)"@
}

/// The error when a direct-mode input has no envelope.
pub open spec fn not_an_envelope_message(path: Seq<char>) -> Seq<char> {
    "input "@ + path + " is not an SBC envelope (magic missing)"@
}

/// What to do with an input that is not an envelope: relative mode takes
/// it as plaintext (with a note to print), direct mode refuses it.
pub fn handle_missing_envelope(mode: OperationMode, path: &str) -> (r: Result<String, String>)
    ensures
        mode == OperationMode::Relative ==> (r matches Ok(note) && note@ == missing_envelope_note()),
        mode == OperationMode::Direct ==> (r matches Err(e) && e@ == not_an_envelope_message(path@)),
{
    match mode {
        OperationMode::Relative => Ok(
            "  SBC envelope missing – treating payload as plaintext (relative mode)".to_owned(),
        ),
        OperationMode::Direct => {
            let mut e = concat("input ", path);
            e.append(" is not an SBC envelope (magic missing)");
            Err(e)
        },
    }
}

// ----------------------------------------------------------------------
// Ciphertext inspection
// ----------------------------------------------------------------------

/// Whether bytes were wrapped in an SBC envelope or left as plaintext.
#[derive(Debug, Clone, Copy, PartialEq, Eq, Structural)]
pub enum CipherEnvelope {
    Wrapped,
    Plaintext,
}

impl CipherEnvelope {
    /// Whether the bytes were wrapped.
    pub fn is_wrapped(self) -> (b: bool)
        ensures
            b == (self == CipherEnvelope::Wrapped),
    {
        match self {
            CipherEnvelope::Wrapped => true,
            CipherEnvelope::Plaintext => false,
        }
    }
}

/// What an inspection of ciphertext found.
#[derive(Debug)]
pub struct CipherInspection {
    pub envelope: CipherEnvelope,
    pub length: usize,
}

/// The bytes every SBC envelope starts with.
pub open spec fn sbc_magic() -> Seq<u8> {
    seq![0x53u8, 0x42u8, 0x43u8, 0x31u8]
}

/// Whether the bytes start with the SBC envelope magic, `SBC1`.
pub fn has_sbc_magic(bytes: &[u8]) -> (b: bool)
    ensures
        b == (bytes@.len() >= 4 && bytes@.take(4) == sbc_magic()),
{
    let b = bytes.len() >= 4 && bytes[0] == 0x53u8 && bytes[1] == 0x42u8 && bytes[2] == 0x43u8 && bytes[3]
        == 0x31u8;
    proof {
        if bytes@.len() >= 4 {
            if b {
                assert(bytes@.take(4) =~= sbc_magic());
            } else {
                if bytes@.take(4) == sbc_magic() {
                    assert(bytes@.take(4)[0] == bytes@[0]);
                    assert(bytes@.take(4)[1] == bytes@[1]);
                    assert(bytes@.take(4)[2] == bytes@[2]);
                    assert(bytes@.take(4)[3] == bytes@[3]);
                }
            }
        }
    }
    b
}

/// Inspect bytes: whether they carry the envelope magic, and their length.
pub fn inspect_ciphertext(ciphertext: &[u8]) -> (info: CipherInspection)
    ensures
        info.envelope == (if ciphertext@.len() >= 4 && ciphertext@.take(4) == sbc_magic() {
            CipherEnvelope::Wrapped
        } else {
            CipherEnvelope::Plaintext
        }),
        info.length == ciphertext@.len(),
{
    let envelope = if has_sbc_magic(ciphertext) {
        CipherEnvelope::Wrapped
    } else {
        CipherEnvelope::Plaintext
    };
    CipherInspection { envelope, length: ciphertext.len() }
}

// ----------------------------------------------------------------------
// Vault archives
// ----------------------------------------------------------------------

/// The `/`-separated segments of a path, empty ones included.
pub open spec fn path_segments(p: Seq<char>) -> Seq<Seq<char>>
    decreases p.len(),
{
    if p.len() == 0 {
        seq![Seq::empty()]
    } else {
        let rest = path_segments(p.drop_last());
        if p.last() == '/' {
            rest.push(Seq::empty())
        } else {
            rest.update(rest.len() - 1, rest.last().push(p.last()))
        }
    }
}

proof fn lemma_path_segments_nonempty(p: Seq<char>)
    ensures
        path_segments(p).len() > 0,
    decreases p.len(),
{
    if p.len() > 0 {
        lemma_path_segments_nonempty(p.drop_last());
    }
}

/// An archive entry path is safe when it is relative and has no `..`
/// component.
pub open spec fn spec_archive_path_safe(p: Seq<char>) -> bool {
    &&& !(p.len() > 0 && p[0] == '/')
    &&& forall|i: int| 0 <= i < path_segments(p).len() ==> #[trigger] path_segments(p)[i] != seq!['.', '.']
}

/// The error for an unsafe archive entry path.
pub open spec fn unsafe_entry_message(path: Seq<char>) -> Seq<char> {
    "unsafe archive entry path: "@ + path
}

/// Refuse archive entries that are absolute or climb out with `..`.
pub fn validate_archive_entry_path(path: &str) -> (r: Result<(), String>)
    ensures
        spec_archive_path_safe(path@) ==> r is Ok,
        !spec_archive_path_safe(path@) ==> (r matches Err(e) && e@ == unsafe_entry_message(path@)),
{
    let cs = chars_of(path);
    let mut unsafe_path = cs.len() > 0 && cs[0] == '/';
    // Walk the segments; `current` is the segment being read.
    let mut current: Vec<char> = Vec::new();
    let mut i: usize = 0;
    proof {
        lemma_path_segments_nonempty(path@.take(0));
        assert(path@.take(0) =~= Seq::<char>::empty());
    }
    while i < cs.len()
        invariant
            cs@ == path@,
            i <= cs.len(),
            path_segments(path@.take(i as int)).len() > 0,
            current@ == path_segments(path@.take(i as int)).last(),
            unsafe_path == ((path@.len() > 0 && path@[0] == '/') || exists|k: int|
                0 <= k < path_segments(path@.take(i as int)).len() - 1
                    && #[trigger] path_segments(path@.take(i as int))[k] == seq!['.', '.']),
        decreases cs.len() - i,
    {
        let c = cs[i];
        let ghost prev = path@.take(i as int);
        let ghost next = path@.take(i + 1);
        let ghost segs = path_segments(prev);
        assert(next.drop_last() =~= prev);
        assert(next.last() == c);
        if c == '/' {
            let parent = current.len() == 2 && current[0] == '.' && current[1] == '.';
            proof {
                if parent {
                    assert(current@ =~= seq!['.', '.']);
                } else {
                    assert(current@ != seq!['.', '.']);
                }
                let nsegs = path_segments(next);
                assert(nsegs == segs.push(Seq::empty()));
                assert forall|k: int| 0 <= k < segs.len() implies #[trigger] nsegs[k] == segs[k] by {}
                let old_found = exists|k: int| 0 <= k < segs.len() - 1 && #[trigger] segs[k] == seq!['.', '.'];
                let new_found = exists|k: int| 0 <= k < nsegs.len() - 1 && #[trigger] nsegs[k] == seq!['.', '.'];
                if old_found {
                    let k = choose|k: int| 0 <= k < segs.len() - 1 && #[trigger] segs[k] == seq!['.', '.'];
                    assert(nsegs[k] == seq!['.', '.']);
                }
                if parent {
                    assert(nsegs[segs.len() - 1] == seq!['.', '.']);
                }
                if new_found {
                    let k = choose|k: int| 0 <= k < nsegs.len() - 1 && #[trigger] nsegs[k] == seq!['.', '.'];
                    if k < segs.len() - 1 {
                        assert(segs[k] == seq!['.', '.']);
                    }
                }
                assert(new_found == (old_found || parent));
            }
            if parent {
                unsafe_path = true;
            }
            current = Vec::new();
        } else {
            current.push(c);
            proof {
                let nsegs = path_segments(next);
                assert(nsegs == segs.update(segs.len() - 1, segs.last().push(c)));
                assert forall|k: int| 0 <= k < segs.len() - 1 implies #[trigger] nsegs[k] == segs[k] by {}
                let old_found = exists|k: int| 0 <= k < segs.len() - 1 && #[trigger] segs[k] == seq!['.', '.'];
                let new_found = exists|k: int| 0 <= k < nsegs.len() - 1 && #[trigger] nsegs[k] == seq!['.', '.'];
                if old_found {
                    let k = choose|k: int| 0 <= k < segs.len() - 1 && #[trigger] segs[k] == seq!['.', '.'];
                    assert(nsegs[k] == seq!['.', '.']);
                }
                if new_found {
                    let k = choose|k: int| 0 <= k < nsegs.len() - 1 && #[trigger] nsegs[k] == seq!['.', '.'];
                    assert(segs[k] == seq!['.', '.']);
                }
                assert(new_found == old_found);
            }
        }
        i = i + 1;
    }
    assert(path@.take(cs.len() as int) =~= path@);
    let last_parent = current.len() == 2 && current[0] == '.' && current[1] == '.';
    proof {
        if last_parent {
            assert(current@ =~= seq!['.', '.']);
        } else {
            assert(current@ != seq!['.', '.']);
        }
    }
    if unsafe_path || last_parent {
        let e = concat("unsafe archive entry path: ", path);
        return Err(e);
    }
    Ok(())
}

// ----------------------------------------------------------------------
// Key import and restore decisions
// ----------------------------------------------------------------------

/// The warning printed when a forced import differs from the expected
/// identity.
pub open spec fn forced_identity_warning(identity: Seq<char>, expected: Seq<char>) -> Seq<char> {
    "  warning: bundle identity '"@ + identity + "' differs from expected '"@ + expected
        + "'; proceeding due to --force"@
}

/// The error when an import differs from the expected identity.
pub open spec fn identity_mismatch_message(identity: Seq<char>, expected: Seq<char>) -> Seq<char> {
    "bundle identity '"@ + identity + "' does not match expected '"@ + expected
        + "' (use --force to override)"@
}

/// The identity check of `key import`: a bundle claiming another identity
/// than expected is refused, unless forced (then a warning is printed).
pub fn check_bundle_identity(expected: Option<&str>, identity: &str, force: bool) -> (r: Result<Option<String>, String>)
    ensures
        match expected {
            Some(e) => if e@ == identity@ {
                r matches Ok(None)
            } else if force {
                r matches Ok(Some(w)) && w@ == forced_identity_warning(identity@, e@)
            } else {
                r matches Err(m) && m@ == identity_mismatch_message(identity@, e@)
            },
            None => r matches Ok(None),
        },
{
    match expected {
        Some(e) => {
            if str_eq(e, identity) {
                Ok(None)
            } else if force {
                let mut w = concat("  warning: bundle identity '", identity);
                w.append("' differs from expected '");
                w.append(e);
                w.append("'; proceeding due to --force");
                Ok(Some(w))
            } else {
                let mut m = concat("bundle identity '", identity);
                m.append("' does not match expected '");
                m.append(e);
                m.append("' (use --force to override)");
                Err(m)
            }
        },
        None => Ok(None),
    }
}

/// Whether the bundle is written to the vault, and the lines to print.
#[derive(Debug)]
pub struct StoreDecision {
    pub store: bool,
    pub messages: Vec<String>,
}

/// The note when the cached bundle already matches.
pub open spec fn unchanged_bundle_message(fingerprint: Seq<char>) -> Seq<char> {
    "  cached bundle already matches fingerprint "@ + fingerprint + " – leaving file untouched"@
}

/// The error when a cached bundle has another fingerprint.
pub open spec fn fingerprint_change_message(identity: Seq<char>, cached: Seq<char>, new: Seq<char>) -> Seq<char> {
    "bundle for "@ + identity + " already cached with fingerprint "@ + cached
        + " – new fingerprint "@ + new + " requires --force"@
}

/// The warning when a forced import replaces a cached bundle.
pub open spec fn overwrite_warning(identity: Seq<char>, cached: Seq<char>, new: Seq<char>) -> Seq<char> {
    "  warning: overwriting cached bundle for "@ + identity + " ("@ + cached + " -> "@ + new + ")"@
}

/// The note when there is no cached bundle.
pub open spec fn new_bundle_message(identity: Seq<char>, dest: Seq<char>) -> Seq<char> {
    "  no cached bundle for "@ + identity + "; will store at "@ + dest
}

/// What `key import` decides for a bundle with `fingerprint`, given the
/// fingerprint of the bundle cached for its identity: whether to store it,
/// and the lines to print; or the error.
pub open spec fn spec_store_decision(
    identity: Seq<char>,
    fingerprint: Seq<char>,
    cached: Option<Seq<char>>,
    force: bool,
    dest: Seq<char>,
) -> Result<(bool, Seq<Seq<char>>), Seq<char>> {
    match cached {
        Some(c) => if c == fingerprint {
            Ok(
                (
                    false,
                    if force {
                        seq![
                            unchanged_bundle_message(fingerprint),
                            "  note: --force ignored because bundle is unchanged"@,
                        ]
                    } else {
                        seq![unchanged_bundle_message(fingerprint)]
                    },
                ),
            )
        } else if !force {
            Err(fingerprint_change_message(identity, c, fingerprint))
        } else {
            Ok((true, seq![overwrite_warning(identity, c, fingerprint)]))
        },
        None => Ok((true, seq![new_bundle_message(identity, dest)])),
    }
}

/// Trust on first use: the first bundle seen for an identity is stored;
/// afterwards the same bundle is left alone, and a bundle with another
/// fingerprint is refused unless forced.
pub proof fn law_first_fingerprint_is_pinned(
    identity: Seq<char>,
    first: Seq<char>,
    other: Seq<char>,
    force: bool,
    dest: Seq<char>,
)
    requires
        other != first,
    ensures
        spec_store_decision(identity, first, None, force, dest) matches Ok((store, _)) && store,
        spec_store_decision(identity, first, Some(first), force, dest) matches Ok((store, _)) && !store,
        spec_store_decision(identity, other, Some(first), false, dest) == Err::<
            (bool, Seq<Seq<char>>),
            Seq<char>,
        >(fingerprint_change_message(identity, first, other)),
        spec_store_decision(identity, other, Some(first), true, dest) matches Ok((store, _)) && store,
{
}

/// Trust on first use for `key import`: an unchanged bundle is left alone,
/// a changed fingerprint needs `--force`, a new identity is stored.
pub fn decide_bundle_store(
    identity: &str,
    fingerprint: &str,
    cached_fingerprint: Option<&str>,
    force: bool,
    dest: &str,
) -> (r: Result<StoreDecision, String>)
    ensures
        match spec_store_decision(
            identity@,
            fingerprint@,
            opt_str_view(cached_fingerprint),
            force,
            dest@,
        ) {
            Ok((store, lines)) => r matches Ok(d) && d.store == store && lines_view(d.messages@) == lines,
            Err(m) => r matches Err(e) && e@ == m,
        },
{
    let mut messages: Vec<String> = Vec::new();
    match cached_fingerprint {
        Some(cached) => {
            if str_eq(cached, fingerprint) {
                let mut m = concat("  cached bundle already matches fingerprint ", fingerprint);
                m.append(" – leaving file untouched");
                messages.push(m);
                if force {
                    messages.push("  note: --force ignored because bundle is unchanged".to_owned());
                }
                let d = StoreDecision { store: false, messages };
                assert(lines_view(d.messages@) =~= (if force {
                    seq![
                        unchanged_bundle_message(fingerprint@),
                        "  note: --force ignored because bundle is unchanged"@,
                    ]
                } else {
                    seq![unchanged_bundle_message(fingerprint@)]
                }));
                return Ok(d);
            }
            if !force {
                let mut m = concat("bundle for ", identity);
                m.append(" already cached with fingerprint ");
                m.append(cached);
                m.append(" – new fingerprint ");
                m.append(fingerprint);
                m.append(" requires --force");
                return Err(m);
            }
            let mut w = concat("  warning: overwriting cached bundle for ", identity);
            w.append(" (");
            w.append(cached);
            w.append(" -> ");
            w.append(fingerprint);
            w.append(")");
            messages.push(w);
            let d = StoreDecision { store: true, messages };
            assert(lines_view(d.messages@) =~= seq![overwrite_warning(identity@, cached@, fingerprint@)]);
            Ok(d)
        },
        None => {
            let mut m = concat("  no cached bundle for ", identity);
            m.append("; will store at ");
            m.append(dest);
            messages.push(m);
            let d = StoreDecision { store: true, messages };
            assert(lines_view(d.messages@) =~= seq![new_bundle_message(identity@, dest@)]);
            Ok(d)
        },
    }
}

/// The error when a backup's identity is not the expected one.
pub open spec fn backup_mismatch_message(inferred: Seq<char>, expected: Seq<char>) -> Seq<char> {
    "backup identity '"@ + inferred + "' does not match expected '"@ + expected + "'"@
}

/// The identity `key restore` restores: the inferred one, which must equal
/// the expected one when given.
pub fn check_restore_identity(expected: Option<&str>, inferred: &str) -> (r: Result<String, String>)
    ensures
        match expected {
            Some(e) => if e@ == inferred@ {
                r matches Ok(s) && s@ == e@
            } else {
                r matches Err(m) && m@ == backup_mismatch_message(inferred@, e@)
            },
            None => r matches Ok(s) && s@ == inferred@,
        },
{
    match expected {
        Some(e) => {
            if !str_eq(e, inferred) {
                let mut m = concat("backup identity '", inferred);
                m.append("' does not match expected '");
                m.append(e);
                m.append("'");
                return Err(m);
            }
            Ok(e.to_owned())
        },
        None => Ok(inferred.to_owned()),
    }
}

} // verus!
