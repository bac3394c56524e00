//! The lines the commands print about what they found: key listings,
//! bundle verification, ciphertext inspection and sender checks.

use crate::commands::{lines_view, opt_str_view, spec_yes_no, CipherEnvelope, CipherInspection};
use crate::context::{fallback_identity_from_path, spec_fallback_identity, yes_no};
use crate::format::{decimal, spec_decimal};
use crate::json::{json_get, json_str, JsonSpec, JsonValue};
use crate::text::{concat, str_eq};
use vstd::prelude::*;
use vstd::string::*;

verus! {

// ----------------------------------------------------------------------
// Key files
// ----------------------------------------------------------------------

/// The identity a key file stands for: the `identity` label of its JSON
/// when it parsed and has one, else the stem of its file name.
pub open spec fn spec_key_file_identity(key_json: Option<JsonSpec>, path: Seq<char>) -> Seq<char> {
    match key_json {
        Some(j) => match json_get(j, "identity"@) {
            Some(v) => match json_str(v) {
                Some(label) => label,
                None => spec_fallback_identity(path),
            },
            None => spec_fallback_identity(path),
        },
        None => spec_fallback_identity(path),
    }
}

/// The JSON of a key file, if it parsed, as plain values.
pub open spec fn opt_json_view(key_json: Option<&JsonValue>) -> Option<JsonSpec> {
    match key_json {
        Some(j) => Some(j@),
        None => None,
    }
}

/// The identity of the key file at `path`, given its JSON when it parsed.
pub fn key_file_identity(key_json: Option<&JsonValue>, path: &str) -> (identity: String)
    requires
        path@.len() < i64::MAX,
    ensures
        identity@ == spec_key_file_identity(opt_json_view(key_json), path@),
{
    if let Some(j) = key_json {
        if let Some(v) = j.get("identity") {
            if let Some(label) = v.as_str() {
                return label.clone();
            }
        }
    }
    fallback_identity_from_path(path)
}

/// The line listing one identity, with its key file's size when verbose.
pub open spec fn key_list_line(identity: Seq<char>, size: u64, verbose: bool) -> Seq<char> {
    if verbose {
        "  - "@ + identity + " ("@ + spec_decimal(size as nat) + " bytes)"@
    } else {
        "  - "@ + identity
    }
}

/// The listing lines of the key files that pass the filter, in order.
pub open spec fn spec_listed(entries: Seq<(Seq<char>, u64)>, filter: Option<Seq<char>>, verbose: bool) -> Seq<Seq<char>>
    decreases entries.len(),
{
    if entries.len() == 0 {
        Seq::empty()
    } else {
        let rest = spec_listed(entries.drop_last(), filter, verbose);
        let (identity, size) = entries.last();
        match filter {
            Some(f) => if f == identity {
                rest.push(key_list_line(identity, size, verbose))
            } else {
                rest
            },
            None => rest.push(key_list_line(identity, size, verbose)),
        }
    }
}

/// What `key list` prints after its plan: one line per listed identity,
/// or a note that there are none.
pub open spec fn spec_key_list_lines(entries: Seq<(Seq<char>, u64)>, filter: Option<Seq<char>>, verbose: bool) -> Seq<Seq<char>> {
    let listed = spec_listed(entries, filter, verbose);
    if listed.len() == 0 {
        seq!["  (no identities found)"@]
    } else {
        listed
    }
}

/// The key files' identities and sizes, as plain values.
pub open spec fn listing_view(entries: Seq<(String, u64)>) -> Seq<(Seq<char>, u64)> {
    Seq::new(entries.len(), |i: int| (entries[i].0@, entries[i].1))
}

/// The line listing one identity.
fn list_line(identity: &str, size: u64, verbose: bool) -> (line: String)
    ensures
        line@ == key_list_line(identity@, size, verbose),
{
    let mut line = concat("  - ", identity);
    if verbose {
        line.append(" (");
        line.append(decimal(size as u128).as_str());
        line.append(" bytes)");
    }
    line
}

/// The lines `key list` prints for the key files of the vault, given as
/// (identity, size in bytes) in directory order.
pub fn key_list_lines(entries: &Vec<(String, u64)>, filter: Option<&str>, verbose: bool) -> (lines: Vec<String>)
    ensures
        lines_view(lines@) == spec_key_list_lines(listing_view(entries@), opt_str_view(filter), verbose),
{
    let ghost all = listing_view(entries@);
    let mut lines: Vec<String> = Vec::new();
    let mut i: usize = 0;
    while i < entries.len()
        invariant
            i <= entries@.len(),
            all == listing_view(entries@),
            lines_view(lines@) == spec_listed(all.take(i as int), opt_str_view(filter), verbose),
        decreases entries@.len() - i,
    {
        let ghost before = lines@;
        let identity = entries[i].0.as_str();
        let size = entries[i].1;
        let keep = match filter {
            Some(f) => str_eq(f, identity),
            None => true,
        };
        if keep {
            lines.push(list_line(identity, size, verbose));
        }
        proof {
            let next = all.take(i + 1);
            assert(next.drop_last() =~= all.take(i as int));
            assert(next.last() == (entries@[i as int].0@, entries@[i as int].1));
            assert(lines_view(lines@) =~= spec_listed(next, opt_str_view(filter), verbose));
        }
        i = i + 1;
    }
    assert(all.take(entries@.len() as int) =~= all);
    if lines.len() == 0 {
        lines.push("  (no identities found)".to_owned());
        assert(lines_view(lines@) =~= seq!["  (no identities found)"@]);
    }
    lines
}

// ----------------------------------------------------------------------
// Bundle verification
// ----------------------------------------------------------------------

/// The warning when a bundle claims another identity than expected.
pub open spec fn identity_differs_warning(identity: Seq<char>, expected: Seq<char>) -> Seq<char> {
    "  warning: bundle identity '"@ + identity + "' differs from expected '"@ + expected + "'"@
}

/// The warning line of `key verify`, if the identity is not the expected one.
pub open spec fn spec_verify_warning(identity: Seq<char>, expected: Option<Seq<char>>) -> Seq<Seq<char>> {
    match expected {
        Some(e) => if e != identity {
            seq![identity_differs_warning(identity, e)]
        } else {
            Seq::empty()
        },
        None => Seq::empty(),
    }
}

/// The summary `key verify` prints in text mode.
pub open spec fn spec_verify_summary(identity: Seq<char>, did: Option<Seq<char>>, fingerprint: Seq<char>, size: usize) -> Seq<Seq<char>> {
    let did_lines = match did {
        Some(d) => seq!["  did: "@ + d],
        None => Seq::empty(),
    };
    seq!["  identity: "@ + identity] + did_lines + seq![
        "  fingerprint: "@ + fingerprint,
        "  bundle size: "@ + spec_decimal(size as nat) + " bytes"@,
    ]
}

/// What `key verify` prints after its plan: the warning, if any, then in
/// text mode the summary (in JSON mode the summary is a JSON object,
/// printed by the caller).
pub fn key_verify_lines(
    identity: &str,
    did: Option<&str>,
    fingerprint: &str,
    size: usize,
    expected: Option<&str>,
    json: bool,
) -> (lines: Vec<String>)
    ensures
        lines_view(lines@) == spec_verify_warning(identity@, opt_str_view(expected)) + (if json {
            Seq::empty()
        } else {
            spec_verify_summary(identity@, opt_str_view(did), fingerprint@, size)
        }),
{
    let mut lines: Vec<String> = Vec::new();
    if let Some(e) = expected {
        if !str_eq(e, identity) {
            let mut w = concat("  warning: bundle identity '", identity);
            w.append("' differs from expected '");
            w.append(e);
            w.append("'");
            lines.push(w);
        }
    }
    let ghost warning = lines_view(lines@);
    assert(warning =~= spec_verify_warning(identity@, opt_str_view(expected)));
    if !json {
        lines.push(concat("  identity: ", identity));
        if let Some(d) = did {
            lines.push(concat("  did: ", d));
        }
        lines.push(concat("  fingerprint: ", fingerprint));
        let mut size_line = concat("  bundle size: ", decimal(size as u128).as_str());
        size_line.append(" bytes");
        lines.push(size_line);
    }
    assert(lines_view(lines@) =~= warning + (if json {
        Seq::empty()
    } else {
        spec_verify_summary(identity@, opt_str_view(did), fingerprint@, size)
    }));
    lines
}

// ----------------------------------------------------------------------
// Ciphertext inspection
// ----------------------------------------------------------------------

/// What `file inspect` prints for bytes that are not an envelope.
pub open spec fn spec_plaintext_report(wrapped: bool, length: usize) -> Seq<Seq<char>> {
    seq![
        "  not an SBC envelope – treating input as plaintext"@,
        "  ciphertext marker present: "@ + spec_yes_no(wrapped),
        "  file size: "@ + spec_decimal(length as nat) + " bytes"@,
    ]
}

/// The report of `file inspect` on an input that is not an envelope.
pub fn plaintext_report(info: &CipherInspection) -> (lines: Vec<String>)
    ensures
        lines_view(lines@) == spec_plaintext_report(info.envelope == CipherEnvelope::Wrapped, info.length),
{
    let mut lines: Vec<String> = Vec::new();
    lines.push("  not an SBC envelope – treating input as plaintext".to_owned());
    lines.push(concat("  ciphertext marker present: ", yes_no(info.envelope.is_wrapped())));
    let mut size_line = concat("  file size: ", decimal(info.length as u128).as_str());
    size_line.append(" bytes");
    lines.push(size_line);
    assert(lines_view(lines@) =~= spec_plaintext_report(info.envelope == CipherEnvelope::Wrapped, info.length));
    lines
}

/// The line describing one recipient of an envelope.
pub open spec fn spec_recipient_line(identity: Option<Seq<char>>, device: Option<Seq<char>>, spk: Option<Seq<char>>) -> Seq<char> {
    "    - "@ + (match identity {
        Some(i) => i,
        None => "<unspecified-identity>"@,
    }) + " ["@ + (match device {
        Some(d) => d,
        None => "<unspecified-device>"@,
    }) + "] spk="@ + (match spk {
        Some(s) => s,
        None => "<none>"@,
    })
}

/// The text, or `fallback` when there is none.
fn or_fallback<'a>(s: Option<&'a str>, fallback: &'a str) -> (r: &'a str)
    ensures
        r@ == (match s {
            Some(v) => v@,
            None => fallback@,
        }),
{
    match s {
        Some(v) => v,
        None => fallback,
    }
}

/// The line describing one recipient of an envelope.
pub fn recipient_line(identity: Option<&str>, device: Option<&str>, spk: Option<&str>) -> (line: String)
    ensures
        line@ == spec_recipient_line(opt_str_view(identity), opt_str_view(device), opt_str_view(spk)),
{
    let mut line = concat("    - ", or_fallback(identity, "<unspecified-identity>"));
    line.append(" [");
    line.append(or_fallback(device, "<unspecified-device>"));
    line.append("] spk=");
    line.append(or_fallback(spk, "<none>"));
    line
}

/// What `file inspect` says of the sender of an envelope, given the
/// fingerprint of the sender's cached bundle, if any: nothing for an
/// anonymous sender, a confirmation when the fingerprints agree, a warning
/// when they differ, a hint when no bundle is cached.
pub open spec fn spec_sender_consistency(sender: Seq<char>, cached: Option<Seq<char>>, envelope_fingerprint: Seq<char>) -> Option<Seq<char>> {
    if sender.len() == 0 {
        None
    } else {
        match cached {
            Some(c) => if c == envelope_fingerprint {
                Some("  cached sender fingerprint matches ("@ + c + ")"@)
            } else {
                Some(
                    "  warning: cached sender fingerprint "@ + c + " differs from envelope "@
                        + envelope_fingerprint + " (TOFU violation)"@,
                )
            },
            None => Some(
                "  note: sender identity "@ + sender
                    + " has no cached bundle – consider `sbc key import`"@,
            ),
        }
    }
}

/// The sender check of `file inspect`.
pub fn report_sender_consistency(sender: &str, cached_fingerprint: Option<&str>, envelope_fingerprint: &str) -> (line: Option<String>)
    ensures
        match spec_sender_consistency(sender@, opt_str_view(cached_fingerprint), envelope_fingerprint@) {
            Some(l) => line matches Some(s) && s@ == l,
            None => line is None,
        },
{
    if sender.unicode_len() == 0 {
        return None;
    }
    match cached_fingerprint {
        Some(c) => {
            if str_eq(c, envelope_fingerprint) {
                let mut l = concat("  cached sender fingerprint matches (", c);
                l.append(")");
                Some(l)
            } else {
                let mut l = concat("  warning: cached sender fingerprint ", c);
                l.append(" differs from envelope ");
                l.append(envelope_fingerprint);
                l.append(" (TOFU violation)");
                Some(l)
            }
        },
        None => {
            let mut l = concat("  note: sender identity ", sender);
            l.append(" has no cached bundle – consider `sbc key import`");
            Some(l)
        },
    }
}

} // verus!
