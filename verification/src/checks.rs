//! The checks the key and vault commands make before writing: what they
//! refuse to replace, what must exist, and when a vault holds data.

use crate::text::concat;
use vstd::prelude::*;
use vstd::string::*;

verus! {

/// The error when `key generate` would replace key material.
pub open spec fn key_exists_message(key_path: Seq<char>) -> Seq<char> {
    "key material already exists at "@ + key_path + " (use --overwrite to replace)"@
}

/// `key generate` replaces existing key material only with `--overwrite`.
pub fn check_key_generate_target(key_path: &str, present: bool, overwrite: bool) -> (r: Result<(), String>)
    ensures
        (r is Ok) <==> (!present || overwrite),
        r matches Err(e) ==> e@ == key_exists_message(key_path@),
{
    if present && !overwrite {
        let mut e = concat("key material already exists at ", key_path);
        e.append(" (use --overwrite to replace)");
        return Err(e);
    }
    Ok(())
}

/// The error when the key to back up is missing.
pub open spec fn backup_source_missing_message(identity: Seq<char>, source: Seq<char>) -> Seq<char> {
    "key material for "@ + identity + " not found at "@ + source
}

/// The error when `key backup` would replace its output.
pub open spec fn output_exists_message(output: Seq<char>) -> Seq<char> {
    "output "@ + output + " already exists (use --overwrite to replace)"@
}

/// `key backup` needs the identity's key, and replaces an existing output
/// only with `--overwrite`; the missing key is reported first.
pub fn check_backup(
    identity: &str,
    source: &str,
    source_exists: bool,
    output: &str,
    output_exists: bool,
    overwrite: bool,
) -> (r: Result<(), String>)
    ensures
        (r is Ok) <==> (source_exists && (!output_exists || overwrite)),
        !source_exists ==> (r matches Err(e) && e@ == backup_source_missing_message(identity@, source@)),
        source_exists && output_exists && !overwrite ==> (r matches Err(e) && e@ == output_exists_message(output@)),
{
    if !source_exists {
        let mut e = concat("key material for ", identity);
        e.append(" not found at ");
        e.append(source);
        return Err(e);
    }
    if output_exists && !overwrite {
        let mut e = concat("output ", output);
        e.append(" already exists (use --overwrite to replace)");
        return Err(e);
    }
    Ok(())
}

/// The error when an input file is missing.
pub open spec fn input_missing_message(input: Seq<char>) -> Seq<char> {
    "input "@ + input + " not found"@
}

/// `key restore` needs its input file.
pub fn check_restore_input(input: &str, present: bool) -> (r: Result<(), String>)
    ensures
        (r is Ok) <==> present,
        r matches Err(e) ==> e@ == input_missing_message(input@),
{
    if !present {
        let mut e = concat("input ", input);
        e.append(" not found");
        return Err(e);
    }
    Ok(())
}

/// The error when `key restore` would replace a key.
pub open spec fn restore_target_exists_message(identity: Seq<char>, dest: Seq<char>) -> Seq<char> {
    "key for "@ + identity + " already exists at "@ + dest + " (use --overwrite to replace)"@
}

/// `key restore` replaces an existing key only with `--overwrite`.
pub fn check_restore_target(identity: &str, dest: &str, present: bool, overwrite: bool) -> (r: Result<(), String>)
    ensures
        (r is Ok) <==> (!present || overwrite),
        r matches Err(e) ==> e@ == restore_target_exists_message(identity@, dest@),
{
    if present && !overwrite {
        let mut e = concat("key for ", identity);
        e.append(" already exists at ");
        e.append(dest);
        e.append(" (use --overwrite to replace)");
        return Err(e);
    }
    Ok(())
}

/// The error when `vault export` would replace an archive.
pub open spec fn archive_exists_message(output: Seq<char>) -> Seq<char> {
    "archive "@ + output + " already exists (use --overwrite to replace)"@
}

/// `vault export` replaces an existing archive only with `--overwrite`.
pub fn check_export_target(output: &str, present: bool, overwrite: bool) -> (r: Result<(), String>)
    ensures
        (r is Ok) <==> (!present || overwrite),
        r matches Err(e) ==> e@ == archive_exists_message(output@),
{
    if present && !overwrite {
        let mut e = concat("archive ", output);
        e.append(" already exists (use --overwrite to replace)");
        return Err(e);
    }
    Ok(())
}

/// The error when the archive to import is missing.
pub open spec fn archive_missing_message(archive: Seq<char>) -> Seq<char> {
    "archive "@ + archive + " not found"@
}

/// `vault import` needs its archive.
pub fn check_import_archive(archive: &str, present: bool) -> (r: Result<(), String>)
    ensures
        (r is Ok) <==> present,
        r matches Err(e) ==> e@ == archive_missing_message(archive@),
{
    if !present {
        let mut e = concat("archive ", archive);
        e.append(" not found");
        return Err(e);
    }
    Ok(())
}

/// The error when `vault import` would replace a vault holding data.
pub open spec fn vault_has_data_message(vault: Seq<char>) -> Seq<char> {
    "vault "@ + vault + " already contains data; rerun with --force to replace"@
}

/// `vault import` replaces a vault holding data only with `--force`.
pub fn check_import_target(vault: &str, has_data: bool, force: bool) -> (r: Result<(), String>)
    ensures
        (r is Ok) <==> (!has_data || force),
        r matches Err(e) ==> e@ == vault_has_data_message(vault@),
{
    if !force && has_data {
        let mut e = concat("vault ", vault);
        e.append(" already contains data; rerun with --force to replace");
        return Err(e);
    }
    Ok(())
}

/// An entry at the top of the vault directory.
#[derive(Debug)]
pub struct VaultEntry {
    pub name: String,
    pub is_dir: bool,
    /// For a directory, whether it has any entry.
    pub dir_nonempty: bool,
}

/// An entry holds data when its name does not start with `.` and it is a
/// file or a non-empty directory.
pub open spec fn entry_holds_data(e: VaultEntry) -> bool {
    &&& !(e.name@.len() > 0 && e.name@[0] == '.')
    &&& (!e.is_dir || e.dir_nonempty)
}

/// Whether a vault, given its top-level entries, holds data: some entry
/// not hidden by a leading `.` is a file or a non-empty directory.
pub fn vault_has_data(entries: &Vec<VaultEntry>) -> (b: bool)
    ensures
        b == exists|i: int| 0 <= i < entries@.len() && entry_holds_data(#[trigger] entries@[i]),
{
    let mut i: usize = 0;
    while i < entries.len()
        invariant
            i <= entries@.len(),
            forall|j: int| 0 <= j < i ==> !entry_holds_data(#[trigger] entries@[j]),
        decreases entries@.len() - i,
    {
        let e = &entries[i];
        let hidden = e.name.unicode_len() > 0 && e.name.get_char(0) == '.';
        if !hidden && (!e.is_dir || e.dir_nonempty) {
            assert(entry_holds_data(entries@[i as int]));
            return true;
        }
        i = i + 1;
    }
    false
}

/// How `bytes write` stores its payload: encrypted when recipients are
/// given and plaintext is not forced.
pub fn bytes_write_mode(recipient_count: usize, plaintext: bool) -> (mode: &'static str)
    ensures
        mode@ == (if recipient_count > 0 && !plaintext {
            "encrypted"@
        } else {
            "plaintext"@
        }),
{
    if recipient_count > 0 && !plaintext {
        "encrypted"
    } else {
        "plaintext"
    }
}

/// How many names `atomic_write_private` tries for its temporary file.
pub const PRIVATE_TEMP_ATTEMPTS: u32 = 16;

/// What creating the private temporary file came to.
#[derive(Debug, Clone, Copy, PartialEq, Eq, Structural)]
pub enum TempCreateOutcome {
    /// The file was created and written.
    Written,
    /// A file of that name already existed.
    AlreadyExists,
    /// Another error.
    Failed,
}

/// What `atomic_write_private` does next.
#[derive(Debug, Clone, Copy, PartialEq, Eq, Structural)]
pub enum TempWriteStep {
    /// Move the temporary file over the target.
    Commit,
    /// Try another temporary name.
    Retry,
    /// Stop: no free name was found.
    GiveUp,
    /// Stop with the error of the attempt.
    Fail,
}

/// After attempt number `attempt` (from 0): commit a written file, fail on
/// an error, and on a name clash retry while fewer than
/// `PRIVATE_TEMP_ATTEMPTS` names have been tried.
pub fn private_write_step(attempt: u32, outcome: TempCreateOutcome) -> (step: TempWriteStep)
    ensures
        step == (match outcome {
            TempCreateOutcome::Written => TempWriteStep::Commit,
            TempCreateOutcome::Failed => TempWriteStep::Fail,
            TempCreateOutcome::AlreadyExists => if attempt + 1 < PRIVATE_TEMP_ATTEMPTS {
                TempWriteStep::Retry
            } else {
                TempWriteStep::GiveUp
            },
        }),
{
    match outcome {
        TempCreateOutcome::Written => TempWriteStep::Commit,
        TempCreateOutcome::Failed => TempWriteStep::Fail,
        TempCreateOutcome::AlreadyExists => {
            if attempt < PRIVATE_TEMP_ATTEMPTS - 1 {
                TempWriteStep::Retry
            } else {
                TempWriteStep::GiveUp
            }
        },
    }
}

/// The error when no free temporary name was found.
pub open spec fn temp_exhausted_message(path: Seq<char>) -> Seq<char> {
    "unable to create unique private temp file for "@ + path
}

/// The error when no free temporary name was found for `path`.
pub fn temp_exhausted_error(path: &str) -> (e: String)
    ensures
        e@ == temp_exhausted_message(path@),
{
    concat("unable to create unique private temp file for ", path)
}

} // verus!
