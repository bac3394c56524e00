//! Application context of a datasite vault: where the vault, the encrypted
//! data root and the plaintext shadow root are, and how paths and identity
//! labels are resolved against them.
//!
//! Paths are Unix path strings. The environment (the home directory, the
//! `SBC_*` variables) and the file system are read by the caller, which
//! passes what it read.

use crate::format::{decimal, hex16, spec_decimal, spec_hex_fixed};
use crate::json::{json_get, json_str, JsonValue};
use crate::text::{chars_of, push_char, string_of_chars};
use vstd::prelude::*;

verus! {

// ----------------------------------------------------------------------
// Path strings
// ----------------------------------------------------------------------

/// A path is absolute when it starts at the root.
pub open spec fn spec_is_absolute(p: Seq<char>) -> bool {
    p.len() > 0 && p[0] == '/'
}

/// `Path::join`: an absolute `p` replaces `base`; otherwise `p` is
/// appended with a separator unless `base` is empty or ends with one.
pub open spec fn spec_join(base: Seq<char>, p: Seq<char>) -> Seq<char> {
    if spec_is_absolute(p) {
        p
    } else if base.len() == 0 || base.last() == '/' {
        base + p
    } else {
        base + seq!['/'] + p
    }
}

/// Whether `p` is absolute.
pub fn is_absolute(p: &str) -> (b: bool)
    ensures
        b == spec_is_absolute(p@),
{
    let cs = chars_of(p);
    cs.len() > 0 && cs[0] == '/'
}

/// `base` joined with `p`.
pub fn join(base: &str, p: &str) -> (r: String)
    ensures
        r@ == spec_join(base@, p@),
{
    if is_absolute(p) {
        return p.to_owned();
    }
    let bs = chars_of(base);
    let mut r = base.to_owned();
    if bs.len() > 0 && bs[bs.len() - 1] != '/' {
        push_char(&mut r, '/');
    }
    r.append(p);
    r
}

/// `~` followed by a separator.
pub open spec fn starts_with_home_prefix(p: Seq<char>) -> bool {
    p.len() >= 2 && p[0] == '~' && p[1] == '/'
}

/// `~` is the home directory and `~/rest` is `rest` under it; without a
/// home directory the input stays as it is.
pub open spec fn spec_expand_home(input: Seq<char>, home: Option<Seq<char>>) -> Seq<char> {
    if input == seq!['~'] {
        match home {
            Some(h) => h,
            None => input,
        }
    } else if starts_with_home_prefix(input) {
        match home {
            Some(h) => spec_join(h, input.skip(2)),
            None => input,
        }
    } else {
        input
    }
}

/// The home directory as the caller read it.
pub open spec fn home_view(home: Option<&str>) -> Option<Seq<char>> {
    match home {
        Some(h) => Some(h@),
        None => None,
    }
}

/// Expand a leading `~` to the home directory.
pub fn expand_home(input: &str, home: Option<&str>) -> (r: String)
    ensures
        r@ == spec_expand_home(input@, home_view(home)),
{
    let cs = chars_of(input);
    if cs.len() == 1 && cs[0] == '~' {
        assert(input@ =~= seq!['~']);
        return match home {
            Some(h) => h.to_owned(),
            None => input.to_owned(),
        };
    }
    assert(cs.len() != 1 || cs[0] != '~' ==> input@ != seq!['~']);
    if cs.len() >= 2 && cs[0] == '~' && cs[1] == '/' {
        match home {
            Some(h) => {
                let mut rest: Vec<char> = Vec::new();
                let mut i: usize = 2;
                while i < cs.len()
                    invariant
                        cs@ == input@,
                        2 <= i <= cs.len(),
                        rest@ == input@.subrange(2, i as int),
                    decreases cs.len() - i,
                {
                    rest.push(cs[i]);
                    i = i + 1;
                    assert(rest@ =~= input@.subrange(2, i as int));
                }
                assert(input@.subrange(2, cs.len() as int) =~= input@.skip(2));
                let rest = string_of_chars(&rest);
                join(h, rest.as_str())
            },
            None => input.to_owned(),
        }
    } else {
        input.to_owned()
    }
}

/// `input` resolved under `root`: kept when absolute after home expansion.
pub open spec fn spec_resolve_under_root(root: Seq<char>, input: Seq<char>, home: Option<Seq<char>>) -> Seq<char> {
    let expanded = spec_expand_home(input, home);
    if spec_is_absolute(expanded) {
        expanded
    } else {
        spec_join(root, expanded)
    }
}

/// Resolve `input` under `root`.
pub fn resolve_under_root(root: &str, input: &str, home: Option<&str>) -> (r: String)
    ensures
        r@ == spec_resolve_under_root(root@, input@, home_view(home)),
{
    let expanded = expand_home(input, home);
    if is_absolute(expanded.as_str()) {
        expanded
    } else {
        join(root, expanded.as_str())
    }
}

// ----------------------------------------------------------------------
// Application context
// ----------------------------------------------------------------------

/// Shared application context derived from the global CLI arguments.
#[derive(Debug, Clone)]
pub struct AppContext {
    pub vault_path: String,
    pub data_root: String,
    pub shadow_root: String,
}

/// A path in the encrypted data tree.
pub fn resolve_data_path(context: &AppContext, input: &str, home: Option<&str>) -> (r: String)
    ensures
        r@ == spec_resolve_under_root(context.data_root@, input@, home_view(home)),
{
    resolve_under_root(context.data_root.as_str(), input, home)
}

/// A path in the plaintext shadow tree.
pub fn resolve_shadow_path(context: &AppContext, input: &str, home: Option<&str>) -> (r: String)
    ensures
        r@ == spec_resolve_under_root(context.shadow_root@, input@, home_view(home)),
{
    resolve_under_root(context.shadow_root.as_str(), input, home)
}

/// The default vault: `.sbc` under the home directory, or `.sbc` without one.
pub open spec fn spec_default_vault_path(home: Option<Seq<char>>) -> Seq<char> {
    match home {
        Some(h) => spec_join(h, ".sbc"@),
        None => ".sbc"@,
    }
}

/// The default vault path.
pub fn default_vault_path(home: Option<&str>) -> (r: String)
    ensures
        r@ == spec_default_vault_path(home_view(home)),
{
    match home {
        Some(h) => join(h, ".sbc"),
        None => ".sbc".to_owned(),
    }
}

/// The vault: the flag, else `SBC_VAULT`, else the default; home-expanded.
pub open spec fn spec_resolve_vault(
    flag: Option<Seq<char>>,
    env: Option<Seq<char>>,
    home: Option<Seq<char>>,
) -> Seq<char> {
    let candidate = match flag {
        Some(v) => v,
        None => match env {
            Some(v) => v,
            None => spec_default_vault_path(home),
        },
    };
    spec_expand_home(candidate, home)
}

/// An optional owned path as text.
pub open spec fn opt_string_view(s: Option<String>) -> Option<Seq<char>> {
    match s {
        Some(v) => Some(v@),
        None => None,
    }
}

/// Resolve the vault directory from the `--vault` flag and `SBC_VAULT`.
pub fn resolve_vault(vault: Option<String>, env_vault: Option<String>, home: Option<&str>) -> (r: String)
    ensures
        r@ == spec_resolve_vault(opt_string_view(vault), opt_string_view(env_vault), home_view(home)),
{
    let candidate = match vault {
        Some(v) => v,
        None => match env_vault {
            Some(v) => v,
            None => default_vault_path(home),
        },
    };
    expand_home(candidate.as_str(), home)
}

/// Raw datasite configuration (`config/datasite.json` in the vault).
#[derive(Debug, Clone)]
pub struct DatasiteConfigRaw {
    pub encrypted_root: String,
    pub shadow_root: String,
}

/// Datasite configuration with the roots resolved against the vault.
#[derive(Debug, Clone)]
pub struct DatasiteConfig {
    pub encrypted_root: String,
    pub shadow_root: String,
}

/// A configured path: home-expanded, and under the vault when relative.
pub open spec fn spec_resolve_config_path(vault: Seq<char>, candidate: Seq<char>, home: Option<Seq<char>>) -> Seq<char> {
    spec_resolve_under_root(vault, candidate, home)
}

/// Resolve a configured path against the vault (before canonicalisation,
/// which reads the file system).
pub fn resolve_config_path(vault: &str, candidate: &str, home: Option<&str>) -> (r: String)
    ensures
        r@ == spec_resolve_config_path(vault@, candidate@, home_view(home)),
{
    resolve_under_root(vault, candidate, home)
}

/// Resolve both roots of a raw configuration against the vault.
pub fn resolve_datasite_config(vault: &str, raw: &DatasiteConfigRaw, home: Option<&str>) -> (config: DatasiteConfig)
    ensures
        config.encrypted_root@ == spec_resolve_config_path(vault@, raw.encrypted_root@, home_view(home)),
        config.shadow_root@ == spec_resolve_config_path(vault@, raw.shadow_root@, home_view(home)),
{
    DatasiteConfig {
        encrypted_root: resolve_config_path(vault, raw.encrypted_root.as_str(), home),
        shadow_root: resolve_config_path(vault, raw.shadow_root.as_str(), home),
    }
}

/// The error when no data root is known.
pub open spec fn missing_data_root_message() -> Seq<char> {
    "unable to determine data root – provide --data-root, set SBC_DATA_ROOT, or add encrypted_root to vault config"@
}

/// The error when no shadow root is known.
pub open spec fn missing_shadow_root_message() -> Seq<char> {
    "unable to determine shadow root – provide --shadow-root, set SBC_SHADOW_ROOT, or add shadow_root to vault config"@
}

/// The first of three optional candidates.
pub open spec fn first_of(a: Option<Seq<char>>, b: Option<Seq<char>>, c: Option<Seq<char>>) -> Option<Seq<char>> {
    match a {
        Some(x) => Some(x),
        None => match b {
            Some(x) => Some(x),
            None => c,
        },
    }
}

/// The roots: each from its override, else its environment variable, else
/// the vault configuration; both home-expanded. The data root is checked
/// first.
pub open spec fn spec_resolve_roots(
    data_override: Option<Seq<char>>,
    shadow_override: Option<Seq<char>>,
    data_env: Option<Seq<char>>,
    shadow_env: Option<Seq<char>>,
    config: Option<(Seq<char>, Seq<char>)>,
    home: Option<Seq<char>>,
) -> Result<(Seq<char>, Seq<char>), Seq<char>> {
    let data_config = match config {
        Some(c) => Some(c.0),
        None => None,
    };
    let shadow_config = match config {
        Some(c) => Some(c.1),
        None => None,
    };
    match first_of(data_override, data_env, data_config) {
        None => Err(missing_data_root_message()),
        Some(data) => match first_of(shadow_override, shadow_env, shadow_config) {
            None => Err(missing_shadow_root_message()),
            Some(shadow) => Ok((spec_expand_home(data, home), spec_expand_home(shadow, home))),
        },
    }
}

/// Each root comes from its override, else from its environment variable,
/// else from the vault configuration, home-expanded; the shadow root is
/// looked up only once a data root is found.
pub proof fn law_root_precedence(
    data_override: Option<Seq<char>>,
    shadow_override: Option<Seq<char>>,
    data_env: Option<Seq<char>>,
    shadow_env: Option<Seq<char>>,
    config: Option<(Seq<char>, Seq<char>)>,
    home: Option<Seq<char>>,
)
    ensures
        ({
            let r = spec_resolve_roots(data_override, shadow_override, data_env, shadow_env, config, home);
            &&& data_override is Some ==> (r is Ok ==> r->Ok_0.0 == spec_expand_home(
                data_override->Some_0,
                home,
            ))
            &&& (data_override is None && data_env is Some) ==> (r is Ok ==> r->Ok_0.0
                == spec_expand_home(data_env->Some_0, home))
            &&& (data_override is None && data_env is None && config is Some) ==> (r is Ok
                ==> r->Ok_0.0 == spec_expand_home(config->Some_0.0, home))
            &&& (data_override is None && data_env is None && config is None) ==> r == Err::<
                (Seq<char>, Seq<char>),
                Seq<char>,
            >(missing_data_root_message())
            &&& shadow_override is Some ==> (r is Ok ==> r->Ok_0.1 == spec_expand_home(
                shadow_override->Some_0,
                home,
            ))
            &&& (shadow_override is None && shadow_env is Some) ==> (r is Ok ==> r->Ok_0.1
                == spec_expand_home(shadow_env->Some_0, home))
            &&& (shadow_override is None && shadow_env is None && config is Some) ==> (r is Ok
                ==> r->Ok_0.1 == spec_expand_home(config->Some_0.1, home))
            &&& (data_override is Some || data_env is Some || config is Some) ==> (r is Ok <==> (
            shadow_override is Some || shadow_env is Some || config is Some))
        }),
{
}

/// The configuration's roots as text.
pub open spec fn config_view(config: Option<DatasiteConfig>) -> Option<(Seq<char>, Seq<char>)> {
    match config {
        Some(c) => Some((c.encrypted_root@, c.shadow_root@)),
        None => None,
    }
}

/// The first present of three optional strings.
fn first_present(a: Option<String>, b: Option<String>, c: Option<String>) -> (r: Option<String>)
    ensures
        opt_string_view(r) == first_of(opt_string_view(a), opt_string_view(b), opt_string_view(c)),
{
    match a {
        Some(x) => Some(x),
        None => match b {
            Some(x) => Some(x),
            None => c,
        },
    }
}

/// Resolve the data and shadow roots.
pub fn resolve_roots(
    data_override: Option<String>,
    shadow_override: Option<String>,
    data_env: Option<String>,
    shadow_env: Option<String>,
    config: Option<DatasiteConfig>,
    home: Option<&str>,
) -> (result: Result<(String, String), String>)
    ensures
        match spec_resolve_roots(
            opt_string_view(data_override),
            opt_string_view(shadow_override),
            opt_string_view(data_env),
            opt_string_view(shadow_env),
            config_view(config),
            home_view(home),
        ) {
            Ok((d, s)) => result matches Ok((rd, rs)) && rd@ == d && rs@ == s,
            Err(m) => result matches Err(e) && e@ == m,
        },
{
    let (data_config, shadow_config) = match config {
        Some(c) => (Some(c.encrypted_root), Some(c.shadow_root)),
        None => (None, None),
    };
    let data = match first_present(data_override, data_env, data_config) {
        Some(d) => d,
        None => {
            return Err(
                "unable to determine data root – provide --data-root, set SBC_DATA_ROOT, or add encrypted_root to vault config".to_owned(),
            );
        },
    };
    let shadow = match first_present(shadow_override, shadow_env, shadow_config) {
        Some(s) => s,
        None => {
            return Err(
                "unable to determine shadow root – provide --shadow-root, set SBC_SHADOW_ROOT, or add shadow_root to vault config".to_owned(),
            );
        },
    };
    Ok((expand_home(data.as_str(), home), expand_home(shadow.as_str(), home)))
}

/// Human-readable rendering of a flag.
pub fn yes_no(value: bool) -> (text: &'static str)
    ensures
        text@ == (if value {
            "yes"@
        } else {
            "no"@
        }),
{
    if value {
        "yes"
    } else {
        "no"
    }
}

// ----------------------------------------------------------------------
// Identities
// ----------------------------------------------------------------------

/// Characters kept in identity slugs.
pub open spec fn is_slug_char(c: char) -> bool {
    ('a' <= c && c <= 'z') || ('A' <= c && c <= 'Z') || ('0' <= c && c <= '9') || c == '@' || c
        == '-' || c == '_' || c == '.'
}

/// The identity with every other character replaced by `_`.
pub open spec fn spec_sanitize_identity(identity: Seq<char>) -> Seq<char> {
    Seq::new(identity.len(), |i: int| if is_slug_char(identity[i]) { identity[i] } else { '_' })
}

/// Convert an identity into a filesystem-safe slug.
pub fn sanitize_identity(identity: &str) -> (slug: String)
    ensures
        slug@ == spec_sanitize_identity(identity@),
{
    let cs = chars_of(identity);
    let mut slug = String::new();
    let mut i: usize = 0;
    while i < cs.len()
        invariant
            cs@ == identity@,
            i <= cs.len(),
            slug@ == spec_sanitize_identity(identity@).take(i as int),
        decreases cs.len() - i,
    {
        let c = cs[i];
        let keep = ('a' <= c && c <= 'z') || ('A' <= c && c <= 'Z') || ('0' <= c && c <= '9') || c
            == '@' || c == '-' || c == '_' || c == '.';
        if keep {
            push_char(&mut slug, c);
        } else {
            push_char(&mut slug, '_');
        }
        i = i + 1;
        assert(slug@ =~= spec_sanitize_identity(identity@).take(i as int));
    }
    assert(spec_sanitize_identity(identity@).take(cs.len() as int) =~= spec_sanitize_identity(identity@));
    slug
}

/// A sanitised identity is a slug: it has the identity's length and only
/// slug characters, and an identity that is already a slug is kept as is.
pub proof fn law_sanitized_identity_is_slug(identity: Seq<char>)
    ensures
        spec_sanitize_identity(identity).len() == identity.len(),
        forall|i: int|
            0 <= i < identity.len() ==> is_slug_char(#[trigger] spec_sanitize_identity(identity)[i]),
        (forall|i: int| 0 <= i < identity.len() ==> is_slug_char(#[trigger] identity[i]))
            ==> spec_sanitize_identity(identity) == identity,
{
    if forall|i: int| 0 <= i < identity.len() ==> is_slug_char(#[trigger] identity[i]) {
        assert(spec_sanitize_identity(identity) =~= identity);
    }
}

/// `<vault>/bundles/<slug>.json`.
pub open spec fn spec_bundle_path(vault: Seq<char>, identity: Seq<char>) -> Seq<char> {
    spec_join(spec_join(vault, "bundles"@), spec_sanitize_identity(identity) + ".json"@)
}

/// `<vault>/keys/<slug>.key`.
pub open spec fn spec_key_path(vault: Seq<char>, identity: Seq<char>) -> Seq<char> {
    spec_join(spec_join(vault, "keys"@), spec_sanitize_identity(identity) + ".key"@)
}

/// Where the cached public bundle of an identity lives.
pub fn bundle_path_for_identity(vault: &str, identity: &str) -> (p: String)
    ensures
        p@ == spec_bundle_path(vault@, identity@),
{
    let mut name = sanitize_identity(identity);
    name.append(".json");
    let dir = join(vault, "bundles");
    join(dir.as_str(), name.as_str())
}

/// Where the private key file of an identity lives.
pub fn key_path_for_identity(vault: &str, identity: &str) -> (p: String)
    ensures
        p@ == spec_key_path(vault@, identity@),
{
    let mut name = sanitize_identity(identity);
    name.append(".key");
    let dir = join(vault, "keys");
    join(dir.as_str(), name.as_str())
}

/// The message when a key file has no identity label.
pub open spec fn unparsable_identity_message(path: Seq<char>) -> Seq<char> {
    "unable to parse identity from "@ + path
}

/// The `identity` label of a key file's JSON, or an error naming the file.
pub fn read_identity_from_key(key_json: &JsonValue, path: &str) -> (r: Result<String, String>)
    ensures
        match json_get(key_json@, "identity"@) {
            Some(v) => match json_str(v) {
                Some(label) => r matches Ok(s) && s@ == label,
                None => r matches Err(e) && e@ == unparsable_identity_message(path@),
            },
            None => r matches Err(e) && e@ == unparsable_identity_message(path@),
        },
{
    match key_json.get("identity") {
        Some(v) => match v.as_str() {
            Some(s) => Ok(s.clone()),
            None => {
                let mut e = "unable to parse identity from ".to_owned();
                e.append(path);
                Err(e)
            },
        },
        None => {
            let mut e = "unable to parse identity from ".to_owned();
            e.append(path);
            Err(e)
        },
    }
}

/// The `identity` label of a key file, given its JSON when the file's text
/// parsed as JSON (`None` when it did not): a file that does not parse names
/// no identity either.
pub fn identity_from_key_json(key_json: Option<&JsonValue>, path: &str) -> (r: Result<String, String>)
    ensures
        key_json is None ==> (r matches Err(e) && e@ == unparsable_identity_message(path@)),
        key_json matches Some(j) ==> match json_get(j@, "identity"@) {
            Some(v) => match json_str(v) {
                Some(label) => r matches Ok(s) && s@ == label,
                None => r matches Err(e) && e@ == unparsable_identity_message(path@),
            },
            None => r matches Err(e) && e@ == unparsable_identity_message(path@),
        },
{
    match key_json {
        Some(j) => read_identity_from_key(j, path),
        None => {
            let mut e = "unable to parse identity from ".to_owned();
            e.append(path);
            Err(e)
        },
    }
}

/// The error when a key backup names no identity.
pub open spec fn backup_identity_message() -> Seq<char> {
    "unable to infer identity from key backup"@
}

/// The `identity` label of a key backup's JSON.
pub fn identity_from_backup(backup_json: &JsonValue) -> (r: Result<String, String>)
    ensures
        match json_get(backup_json@, "identity"@) {
            Some(v) => match json_str(v) {
                Some(label) => r matches Ok(s) && s@ == label,
                None => r matches Err(e) && e@ == backup_identity_message(),
            },
            None => r matches Err(e) && e@ == backup_identity_message(),
        },
{
    if let Some(v) = backup_json.get("identity") {
        if let Some(s) = v.as_str() {
            return Ok(s.clone());
        }
    }
    Err("unable to infer identity from key backup".to_owned())
}

/// Index of the last `c` in `s`, or -1.
pub open spec fn last_index_of(s: Seq<char>, c: char) -> int
    decreases s.len(),
{
    if s.len() == 0 {
        -1
    } else if s.last() == c {
        s.len() - 1
    } else {
        last_index_of(s.drop_last(), c)
    }
}

proof fn lemma_last_index_of_bounds(s: Seq<char>, c: char)
    ensures
        -1 <= last_index_of(s, c) < s.len(),
        last_index_of(s, c) >= 0 ==> s[last_index_of(s, c)] == c,
        forall|j: int| last_index_of(s, c) < j < s.len() ==> #[trigger] s[j] != c,
    decreases s.len(),
{
    if s.len() > 0 && s.last() != c {
        lemma_last_index_of_bounds(s.drop_last(), c);
        assert forall|j: int| last_index_of(s, c) < j < s.len() implies #[trigger] s[j] != c by {
            if j < s.len() - 1 {
                assert(s[j] == s.drop_last()[j]);
            }
        }
    }
}

/// `Path::file_name`: the last component that is neither empty nor `.`;
/// `None` for `..`, for the root and for an empty path.
pub open spec fn spec_file_name(p: Seq<char>) -> Option<Seq<char>>
    decreases p.len(),
{
    if p.len() == 0 {
        None
    } else if p.last() == '/' {
        spec_file_name(p.drop_last())
    } else {
        let segment = p.skip(last_index_of(p, '/') + 1);
        if segment == seq!['.'] {
            spec_file_name(p.drop_last())
        } else if segment == seq!['.', '.'] {
            None
        } else {
            Some(segment)
        }
    }
}

/// `Path::file_stem` of a file name: the part before the last `.`, unless
/// that part is empty (as in `.bashrc`) or there is no `.`.
pub open spec fn spec_stem_of(name: Seq<char>) -> Seq<char> {
    let dot = last_index_of(name, '.');
    if dot <= 0 {
        name
    } else {
        name.take(dot)
    }
}

/// The identity a key file's name suggests: its stem, or `unknown`.
pub open spec fn spec_fallback_identity(p: Seq<char>) -> Seq<char> {
    match spec_file_name(p) {
        Some(name) => spec_stem_of(name),
        None => "unknown"@,
    }
}

/// The index of the last `c` in `cs[..n]`, or -1.
fn last_index(cs: &Vec<char>, n: usize, c: char) -> (r: i64)
    requires
        n <= cs@.len(),
        cs@.len() < i64::MAX,
    ensures
        r as int == last_index_of(cs@.take(n as int), c),
{
    let mut i: usize = n;
    proof {
        lemma_last_index_of_bounds(cs@.take(n as int), c);
    }
    while i > 0
        invariant
            i <= n <= cs@.len(),
            cs@.len() < i64::MAX,
            last_index_of(cs@.take(n as int), c) == last_index_of(cs@.take(i as int), c),
        decreases i,
    {
        let ghost t = cs@.take(i as int);
        assert(t.drop_last() =~= cs@.take(i - 1));
        if cs[i - 1] == c {
            return (i - 1) as i64;
        }
        i = i - 1;
    }
    -1
}

/// The file name of a path, as characters.
fn file_name_chars(p: &Vec<char>) -> (r: Option<Vec<char>>)
    requires
        p@.len() < i64::MAX,
    ensures
        match spec_file_name(p@) {
            Some(name) => r matches Some(v) && v@ == name && v@.len() <= p@.len(),
            None => r is None,
        },
{
    let mut n: usize = p.len();
    assert(p@.take(n as int) =~= p@);
    while n > 0
        invariant
            n <= p@.len(),
            p@.len() < i64::MAX,
            spec_file_name(p@) == spec_file_name(p@.take(n as int)),
        decreases n,
    {
        let ghost t = p@.take(n as int);
        assert(t.drop_last() =~= p@.take(n - 1));
        if p[n - 1] == '/' {
            n = n - 1;
        } else {
            let slash = last_index(p, n, '/');
            proof {
                lemma_last_index_of_bounds(t, '/');
            }
            let start = (slash + 1) as usize;
            let mut segment: Vec<char> = Vec::new();
            let mut i: usize = start;
            while i < n
                invariant
                    start <= i <= n <= p@.len(),
                    segment@ == p@.subrange(start as int, i as int),
                decreases n - i,
            {
                segment.push(p[i]);
                i = i + 1;
                assert(segment@ =~= p@.subrange(start as int, i as int));
            }
            assert(segment@ =~= t.skip(start as int));
            if segment.len() == 1 && segment[0] == '.' {
                assert(segment@ =~= seq!['.']);
                n = n - 1;
            } else if segment.len() == 2 && segment[0] == '.' && segment[1] == '.' {
                assert(segment@ =~= seq!['.', '.']);
                return None;
            } else {
                assert(segment@ != seq!['.']);
                assert(segment@ != seq!['.', '.']);
                return Some(segment);
            }
        }
    }
    None
}

/// The stem of a key file's name, or `unknown`.
pub fn fallback_identity_from_path(path: &str) -> (identity: String)
    requires
        path@.len() < i64::MAX,
    ensures
        identity@ == spec_fallback_identity(path@),
{
    let cs = chars_of(path);
    match file_name_chars(&cs) {
        Some(name) => {
            let n = name.len();
            let dot = last_index(&name, n, '.');
            assert(name@.take(n as int) =~= name@);
            proof {
                lemma_last_index_of_bounds(name@, '.');
            }
            if dot <= 0 {
                string_of_chars(&name)
            } else {
                let mut stem: Vec<char> = Vec::new();
                let mut i: usize = 0;
                while i < dot as usize
                    invariant
                        0 < dot < n,
                        n == name@.len(),
                        i <= dot,
                        stem@ == name@.take(i as int),
                    decreases dot - i,
                {
                    stem.push(name[i]);
                    i = i + 1;
                    assert(stem@ =~= name@.take(i as int));
                }
                string_of_chars(&stem)
            }
        },
        None => "unknown".to_owned(),
    }
}

/// The path without its trailing separators and trailing `.` components
/// (a `.` right after a separator).
pub open spec fn strip_trailing(p: Seq<char>) -> Seq<char>
    decreases p.len(),
{
    if p.len() > 0 && p.last() == '/' {
        strip_trailing(p.drop_last())
    } else if p.len() >= 2 && p.last() == '.' && p[p.len() - 2] == '/' {
        strip_trailing(p.drop_last())
    } else {
        p
    }
}

proof fn lemma_strip_trailing_is_prefix(p: Seq<char>)
    ensures
        strip_trailing(p).len() <= p.len(),
        strip_trailing(p) == p.take(strip_trailing(p).len() as int),
        strip_trailing(p).len() > 0 ==> strip_trailing(p).last() != '/',
    decreases p.len(),
{
    if (p.len() > 0 && p.last() == '/') || (p.len() >= 2 && p.last() == '.' && p[p.len() - 2] == '/') {
        lemma_strip_trailing_is_prefix(p.drop_last());
        let q = strip_trailing(p.drop_last());
        assert(p.drop_last().take(q.len() as int) =~= p.take(q.len() as int));
    } else {
        assert(p.take(p.len() as int) =~= p);
    }
}

/// `Path::parent` of a Unix path string: with trailing separators and `.`
/// components ignored, the text before the last separator (itself without
/// them), `/` when that is the root and the empty path when there is no
/// separator; `None` for the empty path and the root.
pub open spec fn spec_parent(p: Seq<char>) -> Option<Seq<char>> {
    let t = strip_trailing(p);
    if t.len() == 0 {
        None
    } else {
        let i = last_index_of(t, '/');
        if i < 0 {
            Some(Seq::empty())
        } else {
            let head = strip_trailing(t.take(i));
            if head.len() == 0 {
                Some(seq!['/'])
            } else {
                Some(head)
            }
        }
    }
}

/// The name of the temporary file written before it replaces `p`:
/// `.<file name>.<nanos>.<suffix as 16 hex digits>.tmp`, with `temp` for a
/// path without a file name.
pub open spec fn spec_temp_name(p: Seq<char>, nanos: u128, suffix: u64) -> Seq<char> {
    let name = match spec_file_name(p) {
        Some(n) => n,
        None => "temp"@,
    };
    seq!['.'] + name + seq!['.'] + spec_decimal(nanos as nat) + seq!['.'] + spec_hex_fixed(
        suffix as nat,
        16,
    ) + ".tmp"@
}

/// The temporary file for `p`: in `p`'s directory (`.` when it has none).
pub open spec fn spec_temp_path(p: Seq<char>, nanos: u128, suffix: u64) -> Seq<char> {
    let dir = match spec_parent(p) {
        Some(d) => d,
        None => seq!['.'],
    };
    spec_join(dir, spec_temp_name(p, nanos, suffix))
}

/// The length of `cs[..n]` without its trailing separators and `.`
/// components.
fn trimmed_len(cs: &Vec<char>, n: usize) -> (m: usize)
    requires
        n <= cs@.len(),
    ensures
        m == strip_trailing(cs@.take(n as int)).len(),
        m <= n,
{
    let mut m = n;
    proof {
        lemma_strip_trailing_is_prefix(cs@.take(n as int));
    }
    while m > 0 && (cs[m - 1] == '/' || (m >= 2 && cs[m - 1] == '.' && cs[m - 2] == '/'))
        invariant
            m <= n <= cs@.len(),
            strip_trailing(cs@.take(n as int)) == strip_trailing(cs@.take(m as int)),
        decreases m,
    {
        assert(cs@.take(m as int).drop_last() =~= cs@.take(m - 1));
        m = m - 1;
    }
    let ghost t = cs@.take(m as int);
    assert(t.len() > 0 ==> t.last() == cs@[m - 1]);
    assert(t.len() >= 2 ==> t[t.len() - 2] == cs@[m - 2]);
    assert(strip_trailing(t) == t);
    m
}

/// The first `n` characters as a string.
fn prefix_string(cs: &Vec<char>, n: usize) -> (s: String)
    requires
        n <= cs@.len(),
    ensures
        s@ == cs@.take(n as int),
{
    let mut s = String::new();
    let mut i: usize = 0;
    while i < n
        invariant
            i <= n <= cs@.len(),
            s@ == cs@.take(i as int),
        decreases n - i,
    {
        push_char(&mut s, cs[i]);
        i = i + 1;
        assert(s@ =~= cs@.take(i as int));
    }
    s
}

/// The path of the temporary file written next to `path` before it
/// replaces it; `nanos` is the time in nanoseconds since the epoch and
/// `suffix` a per-process counter.
#[verifier::rlimit(40)]
pub fn make_temp_path(path: &str, nanos: u128, suffix: u64) -> (temp: String)
    requires
        path@.len() < i64::MAX,
    ensures
        temp@ == spec_temp_path(path@, nanos, suffix),
{
    let cs = chars_of(path);
    assert(cs@.take(cs@.len() as int) =~= cs@);
    let t = trimmed_len(&cs, cs.len());
    let ghost tv = strip_trailing(path@);
    proof {
        lemma_strip_trailing_is_prefix(path@);
    }
    let dir: String = if t == 0 {
        proof {
            reveal_strlit(".");
        }
        ".".to_owned()
    } else {
        let i = last_index(&cs, t, '/');
        proof {
            assert(cs@.take(t as int) == tv);
            lemma_last_index_of_bounds(tv, '/');
        }
        if i < 0 {
            String::new()
        } else {
            let h = trimmed_len(&cs, i as usize);
            proof {
                assert(cs@.take(i as int) =~= tv.take(i as int));
                lemma_strip_trailing_is_prefix(tv.take(i as int));
            }
            if h == 0 {
                proof {
                    reveal_strlit("/");
                }
                "/".to_owned()
            } else {
                let head = prefix_string(&cs, h);
                proof {
                    assert(strip_trailing(tv.take(i as int)) == tv.take(i as int).take(h as int));
                    assert(tv.take(i as int).take(h as int) =~= cs@.take(h as int));
                }
                head
            }
        }
    };
    proof {
        let d = match spec_parent(path@) {
            Some(d) => d,
            None => seq!['.'],
        };
        if t == 0 {
            assert(dir@ =~= seq!['.']);
        } else {
            assert(dir@ =~= d);
        }
    }
    let mut name = String::new();
    push_char(&mut name, '.');
    match file_name_chars(&cs) {
        Some(n) => name.append(string_of_chars(&n).as_str()),
        None => name.append("temp"),
    }
    push_char(&mut name, '.');
    name.append(decimal(nanos).as_str());
    push_char(&mut name, '.');
    name.append(hex16(suffix).as_str());
    name.append(".tmp");
    assert(name@ =~= spec_temp_name(path@, nanos, suffix));
    join(dir.as_str(), name.as_str())
}

/// The message when the vault holds no identity.
pub open spec fn no_identity_message() -> Seq<char> {
    "no identities found in vault (run `sbc key generate` first)"@
}

/// The message when the vault holds several identities.
pub open spec fn many_identities_message() -> Seq<char> {
    "multiple identities present – specify --sender/--identity"@
}

/// The only identity of a vault, given the identities of its key files.
pub open spec fn spec_single_identity(identities: Seq<Seq<char>>) -> Result<Seq<char>, Seq<char>> {
    if identities.len() == 0 {
        Err(no_identity_message())
    } else if identities.len() == 1 {
        Ok(identities[0])
    } else {
        Err(many_identities_message())
    }
}

/// The identities as text.
pub open spec fn identities_view(identities: Seq<String>) -> Seq<Seq<char>> {
    Seq::new(identities.len(), |i: int| identities[i]@)
}

/// Pick the single identity of a vault.
pub fn detect_single_identity(identities: &Vec<String>) -> (r: Result<String, String>)
    ensures
        match spec_single_identity(identities_view(identities@)) {
            Ok(id) => r matches Ok(s) && s@ == id,
            Err(m) => r matches Err(e) && e@ == m,
        },
{
    if identities.len() == 0 {
        Err("no identities found in vault (run `sbc key generate` first)".to_owned())
    } else if identities.len() == 1 {
        Ok(identities[0].clone())
    } else {
        Err("multiple identities present – specify --sender/--identity".to_owned())
    }
}

/// The identity to act as: the one provided, else the vault's single one.
pub fn resolve_identity(provided: Option<&str>, vault_identities: &Vec<String>) -> (r: Result<String, String>)
    ensures
        match provided {
            Some(p) => r matches Ok(s) && s@ == p@,
            None => match spec_single_identity(identities_view(vault_identities@)) {
                Ok(id) => r matches Ok(s) && s@ == id,
                Err(m) => r matches Err(e) && e@ == m,
            },
        },
{
    match provided {
        Some(identity) => Ok(identity.to_owned()),
        None => detect_single_identity(vault_identities),
    }
}

} // verus!
