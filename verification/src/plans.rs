//! The plans the key and file commands announce before they act.

use crate::commands::{
    spec_field_line, spec_info_line, spec_title_line, spec_yes_no, FileInspectArgs,
    KeyGenerateArgs, KeyImportArgs, KeyRecoverArgs, PlanPrinter,
};
use crate::context::{
    home_view, opt_string_view, resolve_data_path, spec_resolve_under_root, AppContext,
};
use vstd::prelude::*;

verus! {

/// The plan of `key generate`.
pub open spec fn spec_key_generate_plan(
    context: AppContext,
    identity: Seq<char>,
    bundle_out: Option<Seq<char>>,
    overwrite: bool,
    dry_run: bool,
    home: Option<Seq<char>>,
) -> Seq<Seq<char>> {
    seq![
        spec_title_line("generate identity material"@),
        spec_field_line("vault"@, context.vault_path@),
        spec_field_line("identity"@, identity),
        spec_field_line("overwrite existing"@, spec_yes_no(overwrite)),
    ] + (match bundle_out {
        Some(b) => seq![
            spec_field_line(
                "export public bundle to"@,
                spec_resolve_under_root(context.data_root@, b, home),
            ),
        ],
        None => Seq::empty(),
    }) + (if dry_run {
        seq![spec_info_line("dry-run: no files will be written"@)]
    } else {
        Seq::empty()
    }) + seq![
        spec_info_line("derive recovery key + X3DH material via syftbox-crypto-protocol"@),
        spec_info_line("persist private JWKS into the vault and emit DID bundle artifacts"@),
    ] + (if dry_run {
        seq![spec_info_line("dry-run complete: no changes were made"@)]
    } else {
        Seq::empty()
    })
}

/// Announce the plan of `key generate`; on a dry run that is all it does.
pub fn plan_key_generate(context: &AppContext, args: &KeyGenerateArgs, home: Option<&str>) -> (plan: PlanPrinter)
    ensures
        plan.spec_lines() == spec_key_generate_plan(
            *context,
            args.identity@,
            opt_string_view(args.bundle_out),
            args.overwrite,
            args.dry_run,
            home_view(home),
        ),
{
    let mut plan = PlanPrinter::new("generate identity material");
    plan.field("vault", context.vault_path.as_str());
    plan.field("identity", args.identity.as_str());
    plan.bool("overwrite existing", args.overwrite);
    let ghost head = plan.spec_lines();
    if let Some(bundle_out) = &args.bundle_out {
        let resolved = resolve_data_path(context, bundle_out.as_str(), home);
        plan.field("export public bundle to", resolved.as_str());
    }
    let ghost with_bundle = plan.spec_lines();
    if args.dry_run {
        plan.info("dry-run: no files will be written");
    }
    let ghost with_note = plan.spec_lines();
    plan.info("derive recovery key + X3DH material via syftbox-crypto-protocol");
    plan.info("persist private JWKS into the vault and emit DID bundle artifacts");
    let ghost with_steps = plan.spec_lines();
    if args.dry_run {
        plan.info("dry-run complete: no changes were made");
    }
    proof {
        let b = match opt_string_view(args.bundle_out) {
            Some(b) => seq![
                spec_field_line(
                    "export public bundle to"@,
                    spec_resolve_under_root(context.data_root@, b, home_view(home)),
                ),
            ],
            None => Seq::<Seq<char>>::empty(),
        };
        let d1 = if args.dry_run {
            seq![spec_info_line("dry-run: no files will be written"@)]
        } else {
            Seq::<Seq<char>>::empty()
        };
        let d2 = if args.dry_run {
            seq![spec_info_line("dry-run complete: no changes were made"@)]
        } else {
            Seq::<Seq<char>>::empty()
        };
        let steps = seq![
            spec_info_line("derive recovery key + X3DH material via syftbox-crypto-protocol"@),
            spec_info_line("persist private JWKS into the vault and emit DID bundle artifacts"@),
        ];
        assert(with_bundle =~= head + b);
        assert(with_note =~= head + b + d1);
        assert(with_steps =~= head + b + d1 + steps);
        assert(plan.spec_lines() =~= head + b + d1 + steps + d2);
    }
    plan
}

/// The plan of `key import`.
pub open spec fn spec_key_import_plan(
    context: AppContext,
    bundle: Seq<char>,
    expected: Option<Seq<char>>,
    verify_only: bool,
    force: bool,
    home: Option<Seq<char>>,
) -> Seq<Seq<char>> {
    seq![
        spec_title_line("import bundle into vault"@),
        spec_field_line("vault"@, context.vault_path@),
        spec_field_line("bundle"@, spec_resolve_under_root(context.data_root@, bundle, home)),
        match expected {
            Some(e) => spec_field_line("expected identity (TOFU guard)"@, e),
            None => spec_field_line("expected identity"@, "auto-detect"@),
        },
        spec_field_line("verification only"@, spec_yes_no(verify_only)),
        spec_field_line("force overwrite"@, spec_yes_no(force)),
        spec_info_line("verify bundle signatures + identity metadata"@),
    ]
}

/// Announce the plan of `key import`; gives the plan and the bundle's
/// path, resolved under the data root.
pub fn plan_key_import(context: &AppContext, args: &KeyImportArgs, home: Option<&str>) -> (r: (PlanPrinter, String))
    ensures
        r.0.spec_lines() == spec_key_import_plan(
            *context,
            args.bundle@,
            opt_string_view(args.expected_identity),
            args.verify_only,
            args.force,
            home_view(home),
        ),
        r.1@ == spec_resolve_under_root(context.data_root@, args.bundle@, home_view(home)),
{
    let mut plan = PlanPrinter::new("import bundle into vault");
    plan.field("vault", context.vault_path.as_str());
    let bundle_path = resolve_data_path(context, args.bundle.as_str(), home);
    plan.field("bundle", bundle_path.as_str());
    match &args.expected_identity {
        Some(identity) => plan.field("expected identity (TOFU guard)", identity.as_str()),
        None => plan.field("expected identity", "auto-detect"),
    }
    plan.bool("verification only", args.verify_only);
    plan.bool("force overwrite", args.force);
    plan.info("verify bundle signatures + identity metadata");
    assert(plan.spec_lines() =~= spec_key_import_plan(
        *context,
        args.bundle@,
        opt_string_view(args.expected_identity),
        args.verify_only,
        args.force,
        home_view(home),
    ));
    (plan, bundle_path)
}

/// The plan of `key recover`, which recovers nothing yet.
pub open spec fn spec_key_recover_plan(
    context: AppContext,
    package: Seq<char>,
    identity: Option<Seq<char>>,
    output: Option<Seq<char>>,
    dry_run: bool,
) -> Seq<Seq<char>> {
    seq![
        spec_title_line("recover identity from package"@),
        spec_field_line("vault"@, context.vault_path@),
        spec_field_line("package"@, package),
        match identity {
            Some(i) => spec_field_line("target identity label"@, i),
            None => spec_field_line("target identity label"@, "derive from package"@),
        },
    ] + (match output {
        Some(o) => seq![spec_field_line("staging output directory"@, o)],
        None => Seq::empty(),
    }) + seq![
        spec_field_line("dry-run"@, spec_yes_no(dry_run)),
        spec_info_line("TODO: decrypt recovery package and rehydrate key material"@),
        spec_info_line("TODO: verify signatures before committing recovered keys to vault"@),
    ] + (if dry_run {
        seq![spec_info_line("dry-run complete: no changes were made"@)]
    } else {
        Seq::empty()
    })
}

/// `key recover`: announce the plan; no key material is touched.
pub fn plan_key_recover(context: &AppContext, args: &KeyRecoverArgs) -> (plan: PlanPrinter)
    ensures
        plan.spec_lines() == spec_key_recover_plan(
            *context,
            args.package@,
            opt_string_view(args.identity),
            opt_string_view(args.output),
            args.dry_run,
        ),
{
    let mut plan = PlanPrinter::new("recover identity from package");
    plan.field("vault", context.vault_path.as_str());
    plan.field("package", args.package.as_str());
    match &args.identity {
        Some(identity) => plan.field("target identity label", identity.as_str()),
        None => plan.field("target identity label", "derive from package"),
    }
    let ghost head = plan.spec_lines();
    if let Some(output) = &args.output {
        plan.field("staging output directory", output.as_str());
    }
    let ghost with_output = plan.spec_lines();
    plan.bool("dry-run", args.dry_run);
    plan.info("TODO: decrypt recovery package and rehydrate key material");
    plan.info("TODO: verify signatures before committing recovered keys to vault");
    let ghost with_steps = plan.spec_lines();
    if args.dry_run {
        plan.info("dry-run complete: no changes were made");
    }
    proof {
        let o = match opt_string_view(args.output) {
            Some(o) => seq![spec_field_line("staging output directory"@, o)],
            None => Seq::<Seq<char>>::empty(),
        };
        let steps = seq![
            spec_field_line("dry-run"@, spec_yes_no(args.dry_run)),
            spec_info_line("TODO: decrypt recovery package and rehydrate key material"@),
            spec_info_line("TODO: verify signatures before committing recovered keys to vault"@),
        ];
        let d = if args.dry_run {
            seq![spec_info_line("dry-run complete: no changes were made"@)]
        } else {
            Seq::<Seq<char>>::empty()
        };
        assert(with_output =~= head + o);
        assert(with_steps =~= head + o + steps);
        assert(plan.spec_lines() =~= head + o + steps + d);
    }
    plan
}

/// The header `file inspect` prints.
pub open spec fn spec_file_inspect_plan(
    context: AppContext,
    input: Seq<char>,
    identity: Option<Seq<char>>,
    verbose: bool,
    home: Option<Seq<char>>,
) -> Seq<Seq<char>> {
    seq![
        spec_title_line("inspect encrypted blob"@),
        spec_field_line("vault"@, context.vault_path@),
        spec_field_line("input (encrypted)"@, spec_resolve_under_root(context.data_root@, input, home)),
    ] + (match identity {
        Some(i) => seq![spec_field_line("identity"@, i)],
        None => Seq::empty(),
    }) + seq![spec_field_line("verbose"@, spec_yes_no(verbose))]
}

/// Announce what `file inspect` looks at; gives the header and the
/// input's path, resolved under the data root.
pub fn plan_file_inspect(context: &AppContext, args: &FileInspectArgs, home: Option<&str>) -> (r: (PlanPrinter, String))
    ensures
        r.0.spec_lines() == spec_file_inspect_plan(
            *context,
            args.input@,
            opt_string_view(args.identity),
            args.verbose,
            home_view(home),
        ),
        r.1@ == spec_resolve_under_root(context.data_root@, args.input@, home_view(home)),
{
    let mut plan = PlanPrinter::stdout("inspect encrypted blob");
    plan.field("vault", context.vault_path.as_str());
    let path = resolve_data_path(context, args.input.as_str(), home);
    plan.field("input (encrypted)", path.as_str());
    let ghost head = plan.spec_lines();
    if let Some(identity) = &args.identity {
        plan.field("identity", identity.as_str());
    }
    let ghost with_identity = plan.spec_lines();
    plan.bool("verbose", args.verbose);
    proof {
        let i = match opt_string_view(args.identity) {
            Some(i) => seq![spec_field_line("identity"@, i)],
            None => Seq::<Seq<char>>::empty(),
        };
        assert(with_identity =~= head + i);
        assert(plan.spec_lines() =~= head + i + seq![spec_field_line("verbose"@, spec_yes_no(args.verbose))]);
    }
    (plan, path)
}

} // verus!
