//! `depbot`'s tools configuration (`.depbot/tools.yaml`): what a loaded
//! [`ToolsFile`] must satisfy, and the [`ShellToolConfig`] it maps to.
use vstd::prelude::*;

use crate::text::{debug_quote, debug_quoted, decimal_spec, decimal_text, has_prefix, starts_with, trimmed, views};
use crate::wire::{copy_strings, CurlSection, ShellSection, ShellToolConfig, ToolsFile};

verus! {

/// Default relative path of the tools configuration under a workspace root.
pub const DEFAULT_TOOLS_CONFIG: &'static str = ".depbot/tools.yaml";

/// Errors from loading or mapping the tools configuration.
#[derive(Clone, Debug, PartialEq)]
pub enum ConfigError {
    Io { path: String, message: String },
    Yaml(String),
    ProtoJson(String),
    Invalid(String),
}

/// The configuration module's error, by its short name.
pub type Error = ConfigError;

pub open spec fn config_error_text(e: ConfigError) -> Seq<char> {
    match e {
        ConfigError::Io { path, message } => "read "@ + path@ + ": "@ + message@,
        ConfigError::Yaml(m) => "parse YAML as JSON value: "@ + m@,
        ConfigError::ProtoJson(m) => "decode ToolsFile from JSON: "@ + m@,
        ConfigError::Invalid(m) => m@,
    }
}

impl ConfigError {
    pub fn to_string(&self) -> (r: String)
        ensures
            r@ == config_error_text(*self),
    {
        match self {
            ConfigError::Io { path, message } => {
                let mut out = String::from_str("read ");
                out.append(path.as_str());
                out.append(": ");
                out.append(message.as_str());
                out
            },
            ConfigError::Yaml(m) => {
                let mut out = String::from_str("parse YAML as JSON value: ");
                out.append(m.as_str());
                out
            },
            ConfigError::ProtoJson(m) => {
                let mut out = String::from_str("decode ToolsFile from JSON: ");
                out.append(m.as_str());
                out
            },
            ConfigError::Invalid(m) => m.clone(),
        }
    }
}

/// The first `url_prefixes` entry that, trimmed and not empty, does not start
/// with `https://`.
pub open spec fn first_bad_prefix(ps: Seq<Seq<char>>) -> Option<Seq<char>>
    decreases ps.len(),
{
    if ps.len() == 0 {
        None
    } else {
        let t = trimmed(ps[0]);
        if t.len() > 0 && !has_prefix(t, "https://"@) {
            Some(t)
        } else {
            first_bad_prefix(ps.drop_first())
        }
    }
}

/// Every entry that is not blank once trimmed starts, trimmed, with `https://`.
pub open spec fn https_only(ps: Seq<Seq<char>>) -> bool {
    forall|i: int|
        0 <= i < ps.len() && trimmed(#[trigger] ps[i]).len() > 0 ==> has_prefix(trimmed(ps[i]), "https://"@)
}

/// A curl prefix list is refused exactly when some non-blank entry does not
/// start with `https://`, wherever it stands in the list; the entry named is
/// the first such one, trimmed.
pub proof fn lemma_first_bad_prefix(ps: Seq<Seq<char>>)
    ensures
        first_bad_prefix(ps) is None <==> https_only(ps),
        first_bad_prefix(ps) matches Some(t) ==> exists|i: int|
            0 <= i < ps.len() && trimmed(#[trigger] ps[i]) == t && t.len() > 0 && !has_prefix(t, "https://"@)
                && https_only(ps.take(i)),
    decreases ps.len(),
{
    if ps.len() > 0 {
        let tail = ps.drop_first();
        lemma_first_bad_prefix(tail);
        let t = trimmed(ps[0]);
        assert forall|k: int| 0 <= k < tail.len() implies tail[k] == ps[k + 1] by {}
        if t.len() > 0 && !has_prefix(t, "https://"@) {
            assert(!https_only(ps));
            assert(ps.take(0) =~= Seq::<Seq<char>>::empty());
            assert(trimmed(ps[0]) == t);
        } else {
            if https_only(tail) {
                assert forall|i: int| 0 <= i < ps.len() && trimmed(#[trigger] ps[i]).len() > 0 implies has_prefix(
                    trimmed(ps[i]),
                    "https://"@,
                ) by {
                    if i > 0 {
                        assert(ps[i] == tail[i - 1]);
                    }
                }
            } else {
                let k = choose|k: int|
                    0 <= k < tail.len() && trimmed(#[trigger] tail[k]).len() > 0 && !has_prefix(trimmed(tail[k]), "https://"@);
                assert(ps[k + 1] == tail[k]);
                assert(!https_only(ps));
            }
            if first_bad_prefix(ps) is Some {
                let b = first_bad_prefix(ps)->0;
                let j = choose|j: int|
                    0 <= j < tail.len() && trimmed(#[trigger] tail[j]) == b && b.len() > 0 && !has_prefix(b, "https://"@)
                        && https_only(tail.take(j));
                let pre = ps.take(j + 1);
                assert forall|i: int| 0 <= i < pre.len() && trimmed(#[trigger] pre[i]).len() > 0 implies has_prefix(
                    trimmed(pre[i]),
                    "https://"@,
                ) by {
                    if i > 0 {
                        assert(pre[i] == tail.take(j)[i - 1]);
                    }
                }
                assert(ps[j + 1] == tail[j]);
            }
        }
    }
}

pub open spec fn shell_error(shell: ShellSection) -> Option<Seq<char>> {
    if !(shell.default_timeout_ms matches Some(n) && n >= 1) {
        Some("ToolsFile.shell.default_timeout_ms must be >= 1"@)
    } else if !(shell.max_timeout_ms matches Some(n) && n >= 1) {
        Some("ToolsFile.shell.max_timeout_ms must be >= 1"@)
    } else if shell.default_timeout_ms->0 > shell.max_timeout_ms->0 {
        Some("ToolsFile.shell.default_timeout_ms must be <= max_timeout_ms"@)
    } else if !(shell.max_output_bytes matches Some(n) && n >= 1) {
        Some("ToolsFile.shell.max_output_bytes must be >= 1"@)
    } else {
        None
    }
}

/// Why a tools file is refused, checked in this order: the version (present,
/// at least 1), the shell section (present, with timeouts >= 1, the default at
/// most the maximum, an output cap >= 1), and the curl URL prefixes (https only).
pub open spec fn tools_file_error(file: ToolsFile) -> Option<Seq<char>> {
    match file.version {
        None => Some("ToolsFile.version is required"@),
        Some(v) => if v < 1 {
            Some("ToolsFile.version must be >= 1, got "@ + decimal_spec(v as int))
        } else {
            match file.shell {
                None => Some("ToolsFile.shell is required"@),
                Some(shell) => match shell_error(shell) {
                    Some(m) => Some(m),
                    None => match file.curl {
                        None => None,
                        Some(curl) => match first_bad_prefix(views(curl.url_prefixes@)) {
                            None => None,
                            Some(p) => Some(
                                "ToolsFile.curl.url_prefixes must start with https://: "@ + debug_quoted(p),
                            ),
                        },
                    },
                },
            }
        },
    }
}

fn invalid(m: &str) -> (r: ConfigError)
    ensures
        r matches ConfigError::Invalid(s) && s@ == m@,
{
    ConfigError::Invalid(String::from_str(m))
}

fn check_curl(curl: &CurlSection) -> (r: Result<(), ConfigError>)
    ensures
        first_bad_prefix(views(curl.url_prefixes@)) is None ==> r is Ok,
        first_bad_prefix(views(curl.url_prefixes@)) matches Some(p) ==> (r matches Err(ConfigError::Invalid(m)) && m@
            == "ToolsFile.curl.url_prefixes must start with https://: "@ + debug_quoted(p)),
{
    let ghost all = views(curl.url_prefixes@);
    let n = curl.url_prefixes.len();
    let mut i: usize = 0;
    assert(all.skip(0) =~= all);
    while i < n
        invariant
            n == curl.url_prefixes@.len(),
            all == views(curl.url_prefixes@),
            i <= n,
            first_bad_prefix(all) == first_bad_prefix(all.skip(i as int)),
        decreases n - i,
    {
        let p = curl.url_prefixes[i].as_str().trim();
        assert(all.skip(i as int)[0] == curl.url_prefixes@[i as int]@);
        assert(all.skip(i as int).drop_first() =~= all.skip(i + 1));
        if !p.is_empty() && !starts_with(p, "https://") {
            let mut m = String::from_str("ToolsFile.curl.url_prefixes must start with https://: ");
            m.append(debug_quote(p).as_str());
            return Err(ConfigError::Invalid(m));
        }
        i += 1;
    }
    Ok(())
}

/// Check a loaded tools file; the error is `Invalid` with the message of
/// [`tools_file_error`].
pub fn validate_tools_file(file: &ToolsFile) -> (r: Result<(), ConfigError>)
    ensures
        tools_file_error(*file) is None ==> r is Ok,
        tools_file_error(*file) matches Some(m) ==> (r matches Err(ConfigError::Invalid(s)) && s@ == m),
        r is Ok ==> (file.curl matches Some(c) ==> https_only(views(c.url_prefixes@))),
        file.curl matches Some(c) && !https_only(views(c.url_prefixes@)) ==> r is Err,
{
    proof {
        if file.curl is Some {
            lemma_first_bad_prefix(views(file.curl->0.url_prefixes@));
        }
    }
    match file.version {
        Some(v) => if v < 1 {
            let mut m = String::from_str("ToolsFile.version must be >= 1, got ");
            m.append(decimal_text(v as i128).as_str());
            return Err(ConfigError::Invalid(m));
        },
        None => {
            return Err(invalid("ToolsFile.version is required"));
        },
    }
    let shell = match &file.shell {
        Some(s) => s,
        None => {
            return Err(invalid("ToolsFile.shell is required"));
        },
    };
    match shell.default_timeout_ms {
        Some(n) if n >= 1 => {},
        _ => {
            return Err(invalid("ToolsFile.shell.default_timeout_ms must be >= 1"));
        },
    }
    match shell.max_timeout_ms {
        Some(n) if n >= 1 => {},
        _ => {
            return Err(invalid("ToolsFile.shell.max_timeout_ms must be >= 1"));
        },
    }
    if shell.default_timeout_ms.unwrap_or(0) > shell.max_timeout_ms.unwrap_or(0) {
        return Err(invalid("ToolsFile.shell.default_timeout_ms must be <= max_timeout_ms"));
    }
    match shell.max_output_bytes {
        Some(n) if n >= 1 => {},
        _ => {
            return Err(invalid("ToolsFile.shell.max_output_bytes must be >= 1"));
        },
    }
    match &file.curl {
        Some(curl) => check_curl(curl),
        None => Ok(()),
    }
}

/// The curl URL prefixes, trimmed, blank ones left out.
pub open spec fn clean_prefixes(ps: Seq<Seq<char>>) -> Seq<Seq<char>>
    decreases ps.len(),
{
    if ps.len() == 0 {
        Seq::empty()
    } else {
        let r = clean_prefixes(ps.drop_last());
        let t = trimmed(ps.last());
        if t.len() == 0 {
            r
        } else {
            r.push(t)
        }
    }
}

/// Cleaning an https-only prefix list keeps it https-only.
proof fn lemma_clean_prefixes_https(ps: Seq<Seq<char>>)
    requires
        https_only(ps),
    ensures
        forall|k: int|
            0 <= k < clean_prefixes(ps).len() ==> has_prefix(#[trigger] clean_prefixes(ps)[k], "https://"@),
    decreases ps.len(),
{
    if ps.len() > 0 {
        let init = ps.drop_last();
        assert forall|i: int| 0 <= i < init.len() && trimmed(#[trigger] init[i]).len() > 0 implies has_prefix(
            trimmed(init[i]),
            "https://"@,
        ) by {
            assert(init[i] == ps[i]);
        }
        lemma_clean_prefixes_https(init);
        let t = trimmed(ps.last());
        assert(ps.last() == ps[ps.len() - 1]);
        if t.len() > 0 {
            assert(has_prefix(trimmed(ps[ps.len() - 1]), "https://"@));
            let c = clean_prefixes(init).push(t);
            assert forall|k: int| 0 <= k < c.len() implies has_prefix(#[trigger] c[k], "https://"@) by {
                if k < c.len() - 1 {
                    assert(c[k] == clean_prefixes(init)[k]);
                }
            }
        }
    }
}

/// Map a tools file into the shell tool configuration for `workspace_root`.
pub fn shell_tool_config_from_tools_file(file: &ToolsFile, workspace_root: String) -> (r: Result<
    ShellToolConfig,
    ConfigError,
>)
    ensures
        tools_file_error(*file) matches Some(m) ==> (r matches Err(ConfigError::Invalid(s)) && s@ == m),
        tools_file_error(*file) is None <==> r is Ok,
        r matches Ok(cfg) ==> {
            let shell = file.shell->0;
            &&& cfg.workspace_root == Some(workspace_root)
            &&& cfg.default_timeout_ms == shell.default_timeout_ms
            &&& cfg.max_timeout_ms == shell.max_timeout_ms
            &&& cfg.max_output_bytes == shell.max_output_bytes
            &&& cfg.allowed_programs@ == shell.allowed_programs@
            &&& (file.curl is None ==> cfg.curl_url_prefixes@.len() == 0)
            &&& (file.curl matches Some(c) ==> views(cfg.curl_url_prefixes@) == clean_prefixes(
                views(c.url_prefixes@),
            ))
        },
        r matches Ok(cfg) ==> forall|k: int|
            0 <= k < cfg.curl_url_prefixes@.len() ==> has_prefix(#[trigger] cfg.curl_url_prefixes@[k]@, "https://"@),
        file.curl matches Some(c) && !https_only(views(c.url_prefixes@)) ==> r is Err,
{
    match validate_tools_file(file) {
        Ok(()) => {},
        Err(e) => {
            return Err(e);
        },
    }
    let shell = match &file.shell {
        Some(s) => s,
        None => {
            return Err(invalid("ToolsFile.shell is required"));
        },
    };
    let mut prefixes: Vec<String> = Vec::new();
    match &file.curl {
        Some(curl) => {
            let ghost all = views(curl.url_prefixes@);
            let n = curl.url_prefixes.len();
            let mut i: usize = 0;
            while i < n
                invariant
                    n == curl.url_prefixes@.len(),
                    all == views(curl.url_prefixes@),
                    i <= n,
                    views(prefixes@) == clean_prefixes(all.take(i as int)),
                decreases n - i,
            {
                let t = curl.url_prefixes[i].as_str().trim();
                assert(all.take(i + 1).drop_last() =~= all.take(i as int));
                assert(all.take(i + 1).last() == curl.url_prefixes@[i as int]@);
                if !t.is_empty() {
                    let ghost before = views(prefixes@);
                    prefixes.push(String::from_str(t));
                    assert(views(prefixes@) =~= before.push(t@));
                }
                i += 1;
            }
            assert(all.take(n as int) =~= all);
            proof {
                lemma_clean_prefixes_https(all);
                assert forall|k: int| 0 <= k < prefixes@.len() implies has_prefix(
                    #[trigger] prefixes@[k]@,
                    "https://"@,
                ) by {
                    assert(views(prefixes@)[k] == prefixes@[k]@);
                }
            }
        },
        None => {},
    }
    Ok(
        ShellToolConfig {
            workspace_root: Some(workspace_root),
            allowed_programs: copy_strings(&shell.allowed_programs),
            default_timeout_ms: shell.default_timeout_ms,
            max_timeout_ms: shell.max_timeout_ms,
            max_output_bytes: shell.max_output_bytes,
            curl_url_prefixes: prefixes,
        },
    )
}

} // verus!
