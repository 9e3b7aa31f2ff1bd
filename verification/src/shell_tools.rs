//! Rules of the workspace-sandboxed `run_command` tool: its configuration,
//! which invocations it allows, its timeout, and how captured output is cut.
use vstd::prelude::*;
use vstd::utf8::{decode_utf8, encode_scalar, encode_utf8, valid_utf8};

use crate::text::{
    contains_char, contains_text, debug_quote, debug_quoted, is_ws, lower_seq, nonblank, nonblank_str, str_eq, trim_end_spec, trim_start_spec, trimmed, views,
};
use crate::tools::ToolError;
use crate::wire::{RunCommand, ShellToolConfig, ToolSpec};

verus! {

/// Suggested default timeout for a command.
pub const DEFAULT_SHELL_TIMEOUT_MS: u32 = 60_000;

/// Suggested cap on a command's timeout.
pub const DEFAULT_SHELL_MAX_TIMEOUT_MS: u32 = 300_000;

/// Suggested cap on captured output.
pub const DEFAULT_SHELL_MAX_OUTPUT_BYTES: u64 = 256 * 1024;

/// The default allowlist for dependency-maintenance CLIs.
pub open spec fn default_allowlist_spec() -> Seq<Seq<char>> {
    seq![
        "go"@, "npm"@, "npx"@, "node"@, "yarn"@, "pnpm"@, "git"@, "gh"@, "cargo"@, "rustc"@, "rg"@, "bazel"@
    ]
}

pub fn default_shell_allowlist() -> (r: Vec<String>)
    ensures
        views(r@) == default_allowlist_spec(),
{
    let mut v: Vec<String> = Vec::new();
    v.push(String::from_str("go"));
    v.push(String::from_str("npm"));
    v.push(String::from_str("npx"));
    v.push(String::from_str("node"));
    v.push(String::from_str("yarn"));
    v.push(String::from_str("pnpm"));
    v.push(String::from_str("git"));
    v.push(String::from_str("gh"));
    v.push(String::from_str("cargo"));
    v.push(String::from_str("rustc"));
    v.push(String::from_str("rg"));
    v.push(String::from_str("bazel"));
    assert(views(v@) =~= default_allowlist_spec());
    v
}

/// The JSON schema of `run_command`'s arguments.
pub open spec fn run_command_params() -> Seq<char> {
    "{\n  \"type\": \"object\",\n  \"properties\": {\n    \"program\": {\n      \"type\": \"string\",\n      \"description\": \"Program basename only (must be allowlisted); resolved via PATH. No shell.\"\n    },\n    \"args\": {\n      \"type\": \"array\",\n      \"items\": { \"type\": \"string\" },\n      \"description\": \"Arguments passed to the program (not interpreted by a shell)\"\n    },\n    \"cwd\": {\n      \"type\": \"string\",\n      \"description\": \"Working directory relative to the workspace root (\\\".\\\" = workspace root)\"\n    },\n    \"timeout_ms\": {\n      \"type\": \"integer\",\n      \"description\": \"Optional timeout in milliseconds (capped by tool config)\"\n    }\n  },\n  \"required\": [\"program\"],\n  \"additionalProperties\": false\n}"@
}

/// The spec of `run_command`: its name, description and argument schema.
pub fn run_command_tool_spec() -> (r: ToolSpec)
    ensures
        r.name matches Some(n) && n@ == "run_command"@,
        r.description matches Some(d) && d@
            == "Run an allowlisted program with argv (no shell). cwd must be under the workspace. Captures stdout/stderr with timeout and size limits."@,
        r.parameters_json matches Some(p) && p@ == run_command_params(),
{
    ToolSpec {
        name: Some(String::from_str("run_command")),
        description: Some(
            String::from_str(
                "Run an allowlisted program with argv (no shell). cwd must be under the workspace. Captures stdout/stderr with timeout and size limits.",
            ),
        ),
        parameters_json: Some(
            String::from_str(
                "{\n  \"type\": \"object\",\n  \"properties\": {\n    \"program\": {\n      \"type\": \"string\",\n      \"description\": \"Program basename only (must be allowlisted); resolved via PATH. No shell.\"\n    },\n    \"args\": {\n      \"type\": \"array\",\n      \"items\": { \"type\": \"string\" },\n      \"description\": \"Arguments passed to the program (not interpreted by a shell)\"\n    },\n    \"cwd\": {\n      \"type\": \"string\",\n      \"description\": \"Working directory relative to the workspace root (\\\".\\\" = workspace root)\"\n    },\n    \"timeout_ms\": {\n      \"type\": \"integer\",\n      \"description\": \"Optional timeout in milliseconds (capped by tool config)\"\n    }\n  },\n  \"required\": [\"program\"],\n  \"additionalProperties\": false\n}",
            ),
        ),
    }
}

/// A [`ShellToolConfig`] for `workspace_root` with the recommended defaults.
pub fn default_shell_tool_config(workspace_root: String) -> (r: ShellToolConfig)
    ensures
        r.workspace_root == Some(workspace_root),
        r.default_timeout_ms == Some(DEFAULT_SHELL_TIMEOUT_MS),
        r.max_timeout_ms == Some(DEFAULT_SHELL_MAX_TIMEOUT_MS),
        r.max_output_bytes == Some(DEFAULT_SHELL_MAX_OUTPUT_BYTES),
        views(r.allowed_programs@) == default_allowlist_spec(),
        r.curl_url_prefixes@.len() == 0,
{
    ShellToolConfig {
        workspace_root: Some(workspace_root),
        allowed_programs: default_shell_allowlist(),
        default_timeout_ms: Some(DEFAULT_SHELL_TIMEOUT_MS),
        max_timeout_ms: Some(DEFAULT_SHELL_MAX_TIMEOUT_MS),
        max_output_bytes: Some(DEFAULT_SHELL_MAX_OUTPUT_BYTES),
        curl_url_prefixes: Vec::new(),
    }
}

pub open spec fn fails_with<T>(r: Result<T, ToolError>, message: Seq<char>) -> bool {
    r matches Err(ToolError::Failed { name, message: m }) && name@ == "run_command"@ && m@ == message
}

fn run_command_error(message: &str) -> (r: ToolError)
    ensures
        r matches ToolError::Failed { name, message: m } && name@ == "run_command"@ && m@ == message@,
{
    ToolError::failed("run_command", String::from_str(message))
}

/// The configured workspace root, trimmed; refused when blank.
pub fn shell_workspace_root(config: &ShellToolConfig) -> (r: Result<String, ToolError>)
    ensures
        nonblank(config.workspace_root) matches Some(w) ==> (r matches Ok(s) && s@ == w),
        nonblank(config.workspace_root) is None ==> fails_with(r, "ShellToolConfig.workspace_root is required"@),
{
    match nonblank_str(&config.workspace_root) {
        Some(w) => Ok(String::from_str(w)),
        None => Err(run_command_error("ShellToolConfig.workspace_root is required")),
    }
}

/// A program name that names no path: not empty, not `.` or `..`, without `/`,
/// `\` or NUL, and not a drive-relative form such as `C:foo`.
pub open spec fn safe_basename(s: Seq<char>) -> bool {
    &&& s.len() > 0
    &&& s != seq!['.']
    &&& s != seq!['.', '.']
    &&& !s.contains('/')
    &&& !s.contains('\\')
    &&& !s.contains('\0')
    &&& !(s.len() >= 2 && (s[0] as u32) < 0x80 && s[1] == ':')
}

pub fn is_safe_program_basename(name: &str) -> (r: bool)
    ensures
        r == safe_basename(name@),
{
    let n = name.unicode_len();
    if n == 0 {
        return false;
    }
    if n == 1 && name.get_char(0) == '.' {
        assert(name@ =~= seq!['.']);
        return false;
    }
    if n == 2 && name.get_char(0) == '.' && name.get_char(1) == '.' {
        assert(name@ =~= seq!['.', '.']);
        return false;
    }
    if contains_char(name, '/') || contains_char(name, '\\') || contains_char(name, '\0') {
        return false;
    }
    if n >= 2 && (name.get_char(0) as u32) < 0x80 && name.get_char(1) == ':' {
        return false;
    }
    true
}

/// The refusal of git arguments that force-push, hard-reset, clean or rewrite
/// history (compared case-insensitively), if any.
/// Each argument lower-cased.
pub open spec fn lowered(args: Seq<Seq<char>>) -> Seq<Seq<char>> {
    args.map_values(|a: Seq<char>| lower_seq(a))
}

pub open spec fn git_guardrail_error(args: Seq<Seq<char>>) -> Option<Seq<char>> {
    let lower = lowered(args);
    if (lower.contains("--force"@) || lower.contains("-f"@) || lower.contains("--force-with-lease"@))
        && lower.contains("push"@) {
        Some("git force-push is blocked by guardrails"@)
    } else if lower.contains("reset"@) && lower.contains("--hard"@) {
        Some("git reset --hard is blocked by guardrails"@)
    } else if lower.contains("clean"@) {
        Some("git clean is blocked by guardrails"@)
    } else if lower.contains("filter-branch"@) || lower.contains("filter-repo"@) {
        Some("git history rewrite commands are blocked by guardrails"@)
    } else {
        None
    }
}

fn lowercase_all(args: &Vec<String>) -> (r: Vec<String>)
    ensures
        views(r@) == lowered(views(args@)),
{
    let mut out: Vec<String> = Vec::new();
    let n = args.len();
    let mut i: usize = 0;
    while i < n
        invariant
            n == args@.len(),
            i <= n,
            views(out@) == lowered(views(args@.take(i as int))),
        decreases n - i,
    {
        let ghost before = views(out@);
        let low = args[i].as_str().to_ascii_lowercase();
        assert(low@ == lower_seq(args@[i as int]@));
        out.push(low);
        assert(views(out@) =~= before.push(low@));
        assert(views(args@.take(i + 1)) =~= views(args@.take(i as int)).push(args@[i as int]@));
        assert(views(out@) =~= lowered(views(args@.take(i + 1))));
        i += 1;
    }
    assert(args@.take(n as int) =~= args@);
    out
}

pub fn check_git_guardrails(args: &Vec<String>) -> (r: Result<(), String>)
    ensures
        git_guardrail_error(views(args@)) is None ==> r is Ok,
        git_guardrail_error(views(args@)) matches Some(m) ==> (r matches Err(e) && e@ == m),
        has_arg(views(args@), "push"@) && (has_arg(views(args@), "--force"@) || has_arg(views(args@), "-f"@)
            || has_arg(views(args@), "--force-with-lease"@)) ==> (r matches Err(e) && e@
            == "git force-push is blocked by guardrails"@),
{
    proof {
        lemma_git_guardrails(views(args@));
    }
    let lower = lowercase_all(args);
    if (contains_text(&lower, "--force") || contains_text(&lower, "-f") || contains_text(&lower, "--force-with-lease"))
        && contains_text(&lower, "push") {
        return Err(String::from_str("git force-push is blocked by guardrails"));
    }
    if contains_text(&lower, "reset") && contains_text(&lower, "--hard") {
        return Err(String::from_str("git reset --hard is blocked by guardrails"));
    }
    if contains_text(&lower, "clean") {
        return Err(String::from_str("git clean is blocked by guardrails"));
    }
    if contains_text(&lower, "filter-branch") || contains_text(&lower, "filter-repo") {
        return Err(String::from_str("git history rewrite commands are blocked by guardrails"));
    }
    Ok(())
}

/// Some argument reads `word` once lower-cased.
pub open spec fn has_arg(args: Seq<Seq<char>>, word: Seq<char>) -> bool {
    exists|i: int| 0 <= i < args.len() && lower_seq(#[trigger] args[i]) == word
}

proof fn lemma_lowered_contains(args: Seq<Seq<char>>, word: Seq<char>)
    ensures
        lowered(args).contains(word) <==> has_arg(args, word),
{
    if has_arg(args, word) {
        let i = choose|i: int| 0 <= i < args.len() && lower_seq(#[trigger] args[i]) == word;
        assert(lowered(args)[i] == word);
    }
    if lowered(args).contains(word) {
        let i = choose|i: int| 0 <= i < lowered(args).len() && lowered(args)[i] == word;
        assert(lower_seq(args[i]) == word);
    }
}

/// What git's guardrails refuse, compared case-insensitively: a `push` with
/// any of `--force`, `-f` or `--force-with-lease`; then `reset` with `--hard`;
/// then `clean`; then `filter-branch` or `filter-repo`. Arguments with none of
/// these pass.
pub proof fn lemma_git_guardrails(args: Seq<Seq<char>>)
    ensures
        has_arg(args, "push"@) && (has_arg(args, "--force"@) || has_arg(args, "-f"@) || has_arg(
            args,
            "--force-with-lease"@,
        )) ==> git_guardrail_error(args) == Some("git force-push is blocked by guardrails"@),
        !(has_arg(args, "push"@) && (has_arg(args, "--force"@) || has_arg(args, "-f"@) || has_arg(
            args,
            "--force-with-lease"@,
        ))) && has_arg(args, "reset"@) && has_arg(args, "--hard"@) ==> git_guardrail_error(args) == Some(
            "git reset --hard is blocked by guardrails"@,
        ),
        !(has_arg(args, "push"@) && (has_arg(args, "--force"@) || has_arg(args, "-f"@) || has_arg(
            args,
            "--force-with-lease"@,
        ))) && !(has_arg(args, "reset"@) && has_arg(args, "--hard"@)) && has_arg(args, "clean"@)
            ==> git_guardrail_error(args) == Some("git clean is blocked by guardrails"@),
        !(has_arg(args, "push"@) && (has_arg(args, "--force"@) || has_arg(args, "-f"@) || has_arg(
            args,
            "--force-with-lease"@,
        ))) && !(has_arg(args, "reset"@) && has_arg(args, "--hard"@)) && !has_arg(args, "clean"@) && (has_arg(
            args,
            "filter-branch"@,
        ) || has_arg(args, "filter-repo"@)) ==> git_guardrail_error(args) == Some(
            "git history rewrite commands are blocked by guardrails"@,
        ),
        git_guardrail_error(args) is None <==> !(has_arg(args, "push"@) && (has_arg(args, "--force"@) || has_arg(
            args,
            "-f"@,
        ) || has_arg(args, "--force-with-lease"@))) && !(has_arg(args, "reset"@) && has_arg(args, "--hard"@))
            && !has_arg(args, "clean"@) && !has_arg(args, "filter-branch"@) && !has_arg(args, "filter-repo"@),
{
    lemma_lowered_contains(args, "push"@);
    lemma_lowered_contains(args, "--force"@);
    lemma_lowered_contains(args, "-f"@);
    lemma_lowered_contains(args, "--force-with-lease"@);
    lemma_lowered_contains(args, "reset"@);
    lemma_lowered_contains(args, "--hard"@);
    lemma_lowered_contains(args, "clean"@);
    lemma_lowered_contains(args, "filter-branch"@);
    lemma_lowered_contains(args, "filter-repo"@);
}

/// The allowlist that a configuration's `allowed_programs` yield: each entry
/// trimmed, blank ones skipped, lower-cased; `None` when an entry is not a basename.
pub open spec fn allowlist_of(programs: Seq<Seq<char>>) -> Option<Seq<Seq<char>>>
    decreases programs.len(),
{
    if programs.len() == 0 {
        Some(Seq::empty())
    } else {
        match allowlist_of(programs.drop_last()) {
            None => None,
            Some(acc) => {
                let name = trimmed(programs.last());
                if name.len() == 0 {
                    Some(acc)
                } else if !safe_basename(name) {
                    None
                } else {
                    Some(acc.push(lower_seq(name)))
                }
            },
        }
    }
}

/// The first allowlist entry that is not a basename, trimmed.
pub open spec fn first_bad_program(programs: Seq<Seq<char>>) -> Seq<char>
    decreases programs.len(),
{
    if programs.len() == 0 {
        Seq::empty()
    } else if allowlist_of(programs.drop_last()) is None {
        first_bad_program(programs.drop_last())
    } else {
        trimmed(programs.last())
    }
}

pub open spec fn timeout_error(config: ShellToolConfig) -> Option<Seq<char>> {
    if !(config.default_timeout_ms matches Some(n) && n >= 1) {
        Some("ShellToolConfig.default_timeout_ms must be >= 1"@)
    } else if !(config.max_timeout_ms matches Some(n) && n >= 1) {
        Some("ShellToolConfig.max_timeout_ms must be >= 1"@)
    } else if config.default_timeout_ms->0 > config.max_timeout_ms->0 {
        Some("ShellToolConfig.default_timeout_ms must be <= max_timeout_ms"@)
    } else if !(config.max_output_bytes matches Some(n) && n >= 1) {
        Some("ShellToolConfig.max_output_bytes must be >= 1"@)
    } else {
        None
    }
}

/// The validated settings of `run_command`.
pub struct RunCommandPolicy {
    workspace_root: String,
    allowlist: Vec<String>,
    default_timeout_ms: u32,
    max_timeout_ms: u32,
    max_output_bytes: u64,
}

impl RunCommandPolicy {
    #[verifier::type_invariant]
    closed spec fn wf(self) -> bool {
        1 <= self.default_timeout_ms <= self.max_timeout_ms && 1 <= self.max_output_bytes
    }

    pub closed spec fn spec_workspace_root(&self) -> Seq<char> {
        self.workspace_root@
    }

    pub closed spec fn spec_allowlist(&self) -> Seq<Seq<char>> {
        views(self.allowlist@)
    }

    pub closed spec fn spec_default_timeout_ms(&self) -> u32 {
        self.default_timeout_ms
    }

    pub closed spec fn spec_max_timeout_ms(&self) -> u32 {
        self.max_timeout_ms
    }

    pub closed spec fn spec_max_output_bytes(&self) -> u64 {
        self.max_output_bytes
    }

    /// Validate `config` for a workspace whose canonical root is `workspace_root`.
    /// Timeouts are checked first, then the output cap, then the allowlist.
    pub fn try_new(config: &ShellToolConfig, workspace_root: String) -> (r: Result<Self, ToolError>)
        ensures
            timeout_error(*config) matches Some(m) ==> fails_with(r, m),
            timeout_error(*config) is None && allowlist_of(views(config.allowed_programs@)) is None ==> fails_with(
                r,
                "ShellToolConfig.allowed_programs entry must be a basename: "@ + debug_quoted(
                    first_bad_program(views(config.allowed_programs@)),
                ),
            ),
            timeout_error(*config) is None && allowlist_of(views(config.allowed_programs@)) is Some <==> r is Ok,
            r matches Ok(p) ==> {
                &&& p.spec_workspace_root() == workspace_root@
                &&& p.spec_default_timeout_ms() == config.default_timeout_ms->0
                &&& p.spec_max_timeout_ms() == config.max_timeout_ms->0
                &&& p.spec_max_output_bytes() == config.max_output_bytes->0
                &&& p.spec_allowlist() == allowlist_of(views(config.allowed_programs@))->0
            },
    {
        let default_timeout_ms = match config.default_timeout_ms {
            Some(n) if n >= 1 => n,
            _ => {
                return Err(run_command_error("ShellToolConfig.default_timeout_ms must be >= 1"));
            },
        };
        let max_timeout_ms = match config.max_timeout_ms {
            Some(n) if n >= 1 => n,
            _ => {
                return Err(run_command_error("ShellToolConfig.max_timeout_ms must be >= 1"));
            },
        };
        if default_timeout_ms > max_timeout_ms {
            return Err(run_command_error("ShellToolConfig.default_timeout_ms must be <= max_timeout_ms"));
        }
        let max_output_bytes = match config.max_output_bytes {
            Some(n) if n >= 1 => n,
            _ => {
                return Err(run_command_error("ShellToolConfig.max_output_bytes must be >= 1"));
            },
        };
        let ghost progs = views(config.allowed_programs@);
        let mut allowlist: Vec<String> = Vec::new();
        let n = config.allowed_programs.len();
        let mut i: usize = 0;
        while i < n
            invariant
                n == config.allowed_programs@.len(),
                progs == views(config.allowed_programs@),
                timeout_error(*config) is None,
                default_timeout_ms == config.default_timeout_ms->0,
                max_timeout_ms == config.max_timeout_ms->0,
                max_output_bytes == config.max_output_bytes->0,
                i <= n,
                allowlist_of(progs.take(i as int)) == Some(views(allowlist@)),
            decreases n - i,
        {
            let name = config.allowed_programs[i].as_str().trim();
            assert(progs.take(i + 1).drop_last() =~= progs.take(i as int));
            assert(progs.take(i + 1).last() == config.allowed_programs@[i as int]@);
            if name.is_empty() {
            } else if !is_safe_program_basename(name) {
                proof {
                    lemma_first_bad_extends(progs, (i + 1) as int);
                }
                let mut m = String::from_str("ShellToolConfig.allowed_programs entry must be a basename: ");
                m.append(debug_quote(name).as_str());
                return Err(ToolError::failed("run_command", m));
            } else {
                allowlist.push(name.to_ascii_lowercase());
                assert(views(allowlist@) =~= allowlist_of(progs.take(i as int))->0.push(lower_seq(name@)));
            }
            i += 1;
        }
        assert(progs.take(n as int) =~= progs);
        Ok(
            RunCommandPolicy {
                workspace_root,
                allowlist,
                default_timeout_ms,
                max_timeout_ms,
                max_output_bytes,
            },
        )
    }

    /// The canonical workspace root that commands run under.
    pub fn workspace_root(&self) -> (r: &str)
        ensures
            r@ == self.spec_workspace_root(),
    {
        self.workspace_root.as_str()
    }

    pub fn max_output_bytes(&self) -> (r: u64)
        ensures
            r == self.spec_max_output_bytes(),
    {
        self.max_output_bytes
    }

    /// Whether `program` (already trimmed) may run: a basename on the allowlist,
    /// with NUL-free arguments and, for git, arguments that pass the guardrails.
    pub fn check_invocation(&self, input: &RunCommand) -> (r: Result<String, ToolError>)
        ensures
            nonblank(input.program) is None ==> fails_with(r, "program is required"@),
            nonblank(input.program) matches Some(p) ==> {
                let key = lower_seq(p);
                &&& !safe_basename(p) ==> fails_with(r, "program must be a basename (no path separators)"@)
                &&& safe_basename(p) && !self.spec_allowlist().contains(key) ==> fails_with(
                    r,
                    "program `"@ + p + "` is not allowlisted"@,
                )
                &&& safe_basename(p) && self.spec_allowlist().contains(key) && (exists|j: int|
                    0 <= j < input.args@.len() && input.args@[j]@.contains('\0')) ==> fails_with(
                    r,
                    "args must not contain NUL bytes"@,
                )
                &&& safe_basename(p) && self.spec_allowlist().contains(key) && !(exists|j: int|
                    0 <= j < input.args@.len() && input.args@[j]@.contains('\0')) ==> {
                    &&& key == "git"@ ==> (git_guardrail_error(views(input.args@)) matches Some(m) ==> fails_with(r, m))
                    &&& !(key == "git"@ && git_guardrail_error(views(input.args@)) is Some) ==> (r matches Ok(s)
                        && s@ == p)
                }
            },
    {
        let program = match nonblank_str(&input.program) {
            Some(p) => p,
            None => {
                return Err(run_command_error("program is required"));
            },
        };
        if !is_safe_program_basename(program) {
            return Err(run_command_error("program must be a basename (no path separators)"));
        }
        let key = program.to_ascii_lowercase();
        if !contains_text(&self.allowlist, key.as_str()) {
            let mut m = String::from_str("program `");
            m.append(program);
            m.append("` is not allowlisted");
            return Err(ToolError::failed("run_command", m));
        }
        let n = input.args.len();
        let mut i: usize = 0;
        while i < n
            invariant
                n == input.args@.len(),
                i <= n,
                nonblank(input.program) == Some(program@),
                safe_basename(program@),
                key@ == lower_seq(program@),
                self.spec_allowlist().contains(key@),
                forall|j: int| 0 <= j < i ==> !input.args@[j]@.contains('\0'),
            decreases n - i,
        {
            if contains_char(input.args[i].as_str(), '\0') {
                return Err(run_command_error("args must not contain NUL bytes"));
            }
            i += 1;
        }
        if str_eq(key.as_str(), "git") {
            match check_git_guardrails(&input.args) {
                Ok(()) => {},
                Err(m) => {
                    return Err(ToolError::failed("run_command", m));
                },
            }
        }
        Ok(String::from_str(program))
    }

    /// The timeout of a call: the request's, capped at the maximum; the default
    /// when none is given; refused when it is 0.
    pub fn effective_timeout(&self, requested: Option<u32>) -> (r: Result<u32, ToolError>)
        ensures
            requested is None ==> r == Ok::<u32, ToolError>(self.spec_default_timeout_ms()),
            requested == Some(0u32) ==> fails_with(r, "timeout_ms must be >= 1 when set"@),
            requested is Some && requested->0 >= 1 ==> r == Ok::<u32, ToolError>(
                if requested->0 <= self.spec_max_timeout_ms() {
                    requested->0
                } else {
                    self.spec_max_timeout_ms()
                },
            ),
    {
        match requested {
            Some(n) => if n >= 1 {
                if n <= self.max_timeout_ms {
                    Ok(n)
                } else {
                    Ok(self.max_timeout_ms)
                }
            } else {
                Err(run_command_error("timeout_ms must be >= 1 when set"))
            },
            None => Ok(self.default_timeout_ms),
        }
    }

    /// Everything that decides whether a call may spawn its program, in the
    /// order the tool checks it: the program and its arguments, then the
    /// working directory (`cwd_found`: what resolving it under the workspace
    /// gave, whether it is a directory, or the refusal's text), then the
    /// timeout. Only an `Ok` plan lets the program run.
    pub fn plan_run(&self, input: &RunCommand, cwd_found: Result<bool, String>) -> (r: Result<RunPlan, ToolError>)
        ensures
            run_refusal(self.spec_allowlist(), *input, cwd_found) matches Some(m) ==> fails_with(r, m),
            run_refusal(self.spec_allowlist(), *input, cwd_found) is None <==> r is Ok,
            r matches Ok(plan) ==> {
                &&& plan.program@ == nonblank(input.program)->0
                &&& plan.cwd@ == cwd_text(*input)
                &&& plan.timeout_ms == (match input.timeout_ms {
                    None => self.spec_default_timeout_ms(),
                    Some(n) => if n <= self.spec_max_timeout_ms() {
                        n
                    } else {
                        self.spec_max_timeout_ms()
                    },
                })
            },
    {
        let program = self.check_invocation(input)?;
        let cwd = command_cwd(input);
        match cwd_found {
            Err(m) => {
                return Err(ToolError::failed("run_command", m));
            },
            Ok(false) => {
                return Err(cwd_not_directory(cwd.as_str()));
            },
            Ok(true) => {},
        }
        let timeout_ms = self.effective_timeout(input.timeout_ms)?;
        Ok(RunPlan { program, cwd, timeout_ms })
    }
}

/// What a call of `run_command` runs: the program, the working directory
/// (relative to the workspace) and the time limit.
pub struct RunPlan {
    pub program: String,
    pub cwd: String,
    pub timeout_ms: u32,
}

/// Why a program with these arguments may not run, if it may not: checked in
/// the order `check_invocation` checks.
pub open spec fn invocation_error(allowlist: Seq<Seq<char>>, input: RunCommand) -> Option<Seq<char>> {
    match nonblank(input.program) {
        None => Some("program is required"@),
        Some(p) => {
            let key = lower_seq(p);
            if !safe_basename(p) {
                Some("program must be a basename (no path separators)"@)
            } else if !allowlist.contains(key) {
                Some("program `"@ + p + "` is not allowlisted"@)
            } else if exists|j: int| 0 <= j < input.args@.len() && input.args@[j]@.contains('\0') {
                Some("args must not contain NUL bytes"@)
            } else if key == "git"@ && git_guardrail_error(views(input.args@)) is Some {
                git_guardrail_error(views(input.args@))
            } else {
                None
            }
        },
    }
}

/// The working directory of a call, as text: the trimmed `cwd`, or `.`.
pub open spec fn cwd_text(input: RunCommand) -> Seq<char> {
    match nonblank(input.cwd) {
        Some(c) => c,
        None => "."@,
    }
}

/// Why a call of `run_command` is refused before anything is spawned, if it is.
pub open spec fn run_refusal(allowlist: Seq<Seq<char>>, input: RunCommand, cwd_found: Result<bool, String>) -> Option<
    Seq<char>,
> {
    match invocation_error(allowlist, input) {
        Some(m) => Some(m),
        None => match cwd_found {
            Err(m) => Some(m@),
            Ok(false) => Some("cwd `"@ + cwd_text(input) + "` is not a directory"@),
            Ok(true) => if input.timeout_ms == Some(0u32) {
                Some("timeout_ms must be >= 1 when set"@)
            } else {
                None
            },
        },
    }
}

proof fn lemma_first_bad_extends(progs: Seq<Seq<char>>, k: int)
    requires
        0 < k <= progs.len(),
        allowlist_of(progs.take(k - 1)) is Some,
        trimmed(progs[k - 1]).len() > 0,
        !safe_basename(trimmed(progs[k - 1])),
    ensures
        allowlist_of(progs) is None,
        first_bad_program(progs) == trimmed(progs[k - 1]),
    decreases progs.len(),
{
    assert(progs.take(k).drop_last() =~= progs.take(k - 1));
    if k == progs.len() {
        assert(progs.take(k) =~= progs);
    } else {
        assert(progs.drop_last().take(k - 1) =~= progs.take(k - 1));
        lemma_first_bad_extends(progs.drop_last(), k);
        assert(progs.drop_last().take(k) =~= progs.take(k));
    }
}

/// The working directory of a call: the trimmed `cwd`, or `.`.
pub fn command_cwd(input: &RunCommand) -> (r: String)
    ensures
        nonblank(input.cwd) matches Some(c) ==> r@ == c,
        nonblank(input.cwd) is None ==> r@ == "."@,
{
    match nonblank_str(&input.cwd) {
        Some(c) => String::from_str(c),
        None => String::from_str("."),
    }
}

/// The refusal of a working directory that is not a directory.
pub fn cwd_not_directory(cwd: &str) -> (r: ToolError)
    ensures
        fails_with(Err::<(), ToolError>(r), "cwd `"@ + cwd@ + "` is not a directory"@),
{
    let mut m = String::from_str("cwd `");
    m.append(cwd);
    m.append("` is not a directory");
    ToolError::failed("run_command", m)
}

/// What one look at a spawned child decides.
#[derive(Clone, Copy, Debug, PartialEq, Eq)]
pub enum ChildPoll {
    /// The child is done: it exited, or it passed its time limit and is to be
    /// killed (then its exit code is -1).
    Finished { exit_code: i32, timed_out: bool },
    /// The child is still within its time limit: look again later.
    Running,
}

/// Decide on a child after `elapsed_ms`: `status` is `Some` once it has
/// exited, holding its exit code (`None` when a signal ended it). An exit
/// without a code reports -1; a child still running at its time limit is
/// timed out with exit code -1.
pub fn poll_child(status: Option<Option<i32>>, elapsed_ms: u128, timeout_ms: u32) -> (r: ChildPoll)
    ensures
        status matches Some(Some(c)) ==> r == (ChildPoll::Finished { exit_code: c, timed_out: false }),
        status == Some(None::<i32>) ==> r == (ChildPoll::Finished { exit_code: -1i32, timed_out: false }),
        status is None && elapsed_ms >= timeout_ms ==> r == (ChildPoll::Finished { exit_code: -1i32, timed_out: true }),
        status is None && elapsed_ms < timeout_ms ==> r == ChildPoll::Running,
{
    match status {
        Some(Some(c)) => ChildPoll::Finished { exit_code: c, timed_out: false },
        Some(None) => ChildPoll::Finished { exit_code: -1, timed_out: false },
        None => if elapsed_ms >= timeout_ms as u128 {
            ChildPoll::Finished { exit_code: -1, timed_out: true }
        } else {
            ChildPoll::Running
        },
    }
}

/// What `String::from_utf8_lossy` makes of `bytes`.
pub uninterp spec fn utf8_lossy(bytes: Seq<u8>) -> Seq<char>;

/// `String::from_utf8_lossy`: valid UTF-8 decodes as such; each invalid
/// sequence (one to three bytes) becomes U+FFFD, itself three bytes in UTF-8,
/// so the result is never shorter in UTF-8 than the input.
#[verifier::external_body]
fn decode_lossy(bytes: &[u8]) -> (r: String)
    ensures
        r@ == utf8_lossy(bytes@),
        valid_utf8(bytes@) ==> r@ == decode_utf8(bytes@),
        encode_utf8(r@).len() >= bytes@.len(),
{
    String::from_utf8_lossy(bytes).into_owned()
}

pub open spec fn truncation_marker() -> Seq<char> {
    "\n…[truncated]"@
}

/// At most `max` bytes of `bytes`, decoded; a cut is marked.
pub open spec fn take_lossy_spec(bytes: Seq<u8>, max: nat) -> (Seq<char>, bool) {
    if bytes.len() <= max {
        (utf8_lossy(bytes), false)
    } else {
        (utf8_lossy(bytes.subrange(0, max as int)) + truncation_marker(), true)
    }
}

/// The number of bytes that a cut to `max` keeps.
pub open spec fn kept_len(len: nat, max: nat) -> nat {
    if len <= max {
        len
    } else {
        max
    }
}

proof fn lemma_encode_utf8_concat(a: Seq<char>, b: Seq<char>)
    ensures
        encode_utf8(a + b) == encode_utf8(a) + encode_utf8(b),
    decreases a.len(),
{
    if a.len() == 0 {
        assert(a + b =~= b);
        assert(encode_utf8(a) + encode_utf8(b) =~= encode_utf8(b));
    } else {
        assert((a + b).drop_first() =~= a.drop_first() + b);
        assert((a + b)[0] == a[0]);
        lemma_encode_utf8_concat(a.drop_first(), b);
        assert(encode_utf8(a) + encode_utf8(b) =~= encode_scalar(a[0] as u32) + (encode_utf8(a.drop_first())
            + encode_utf8(b)));
    }
}

pub fn take_lossy(bytes: &[u8], max: usize) -> (r: (String, bool))
    ensures
        (r.0@, r.1) == take_lossy_spec(bytes@, max as nat),
        encode_utf8(r.0@).len() >= kept_len(bytes@.len(), max as nat),
{
    if bytes.len() <= max {
        return (decode_lossy(bytes), false);
    }
    let slice = vstd::slice::slice_subrange(bytes, 0, max);
    let mut s = decode_lossy(slice);
    let ghost decoded = s@;
    s.append("\n…[truncated]");
    proof {
        lemma_encode_utf8_concat(decoded, "\n…[truncated]"@);
    }
    (s, true)
}

/// Captured stdout and stderr cut to a shared budget of `max_total` bytes:
/// stdout first, then stderr within what the (decoded) stdout left.
/// The bytes that stderr may still use: what the decoded stdout left of `max_total`.
pub open spec fn stderr_budget(stdout: Seq<u8>, max_total: nat) -> nat {
    let used = encode_utf8(take_lossy_spec(stdout, max_total).0).len();
    if used <= max_total {
        (max_total - used) as nat
    } else {
        0
    }
}

pub open spec fn truncate_outputs_spec(stdout: Seq<u8>, stderr: Seq<u8>, max_total: nat) -> (
    Seq<char>,
    Seq<char>,
    bool,
) {
    let (out, out_cut) = take_lossy_spec(stdout, max_total);
    let (err, err_cut) = take_lossy_spec(stderr, stderr_budget(stdout, max_total));
    (out, err, out_cut || err_cut)
}

pub fn truncate_outputs(stdout: &[u8], stderr: &[u8], max_total: u64) -> (r: (String, String, bool))
    requires
        max_total <= usize::MAX,
    ensures
        (r.0@, r.1@, r.2) == truncate_outputs_spec(stdout@, stderr@, max_total as nat),
        kept_len(stdout@.len(), max_total as nat) + kept_len(
            stderr@.len(),
            stderr_budget(stdout@, max_total as nat),
        ) <= max_total,
{
    let max = max_total as usize;
    let (out, out_trunc) = take_lossy(stdout, max);
    let used = out.as_str().as_bytes().len();
    let remaining = max.saturating_sub(used);
    let (err, err_trunc) = take_lossy(stderr, remaining);
    (out, err, out_trunc || err_trunc)
}

/// A name made of lower-case ASCII letters only.
pub open spec fn plain_name(s: Seq<char>) -> bool {
    s.len() > 0 && forall|k: int| 0 <= k < s.len() ==> 'a' <= #[trigger] s[k] <= 'z'
}

proof fn lemma_plain_name_kept(s: Seq<char>)
    requires
        plain_name(s),
    ensures
        trimmed(s) == s,
        safe_basename(s),
        lower_seq(s) == s,
{
    assert(!is_ws(s[0]));
    assert(trim_start_spec(s) == s);
    assert(!is_ws(s.last()));
    assert(trim_end_spec(s) == s);
    assert(lower_seq(s) =~= s);
    assert(!s.contains('/'));
    assert(!s.contains('\\'));
    assert(!s.contains('\0'));
    assert(s != seq!['.']) by {
        if s == seq!['.'] {
            assert(s[0] == '.');
        }
    }
    assert(s != seq!['.', '.']) by {
        if s == seq!['.', '.'] {
            assert(s[0] == '.');
        }
    }
}

proof fn lemma_allowlist_of_plain(ps: Seq<Seq<char>>)
    requires
        forall|i: int| 0 <= i < ps.len() ==> plain_name(#[trigger] ps[i]),
    ensures
        allowlist_of(ps) == Some(ps),
    decreases ps.len(),
{
    if ps.len() > 0 {
        lemma_allowlist_of_plain(ps.drop_last());
        lemma_plain_name_kept(ps.last());
        assert(ps.drop_last().push(ps.last()) =~= ps);
    }
}

/// The default configuration is one that `RunCommandPolicy::try_new` accepts:
/// its timeouts and output cap are valid and every default program is a
/// basename, so the allowlist it yields is the default list itself.
pub proof fn lemma_default_config_accepted(config: ShellToolConfig)
    requires
        config.default_timeout_ms == Some(DEFAULT_SHELL_TIMEOUT_MS),
        config.max_timeout_ms == Some(DEFAULT_SHELL_MAX_TIMEOUT_MS),
        config.max_output_bytes == Some(DEFAULT_SHELL_MAX_OUTPUT_BYTES),
        views(config.allowed_programs@) == default_allowlist_spec(),
    ensures
        timeout_error(config) is None,
        allowlist_of(views(config.allowed_programs@)) == Some(default_allowlist_spec()),
{
    reveal_strlit("go");
    reveal_strlit("npm");
    reveal_strlit("npx");
    reveal_strlit("node");
    reveal_strlit("yarn");
    reveal_strlit("pnpm");
    reveal_strlit("git");
    reveal_strlit("gh");
    reveal_strlit("cargo");
    reveal_strlit("rustc");
    reveal_strlit("rg");
    reveal_strlit("bazel");
    let ps = default_allowlist_spec();
    assert forall|i: int| 0 <= i < ps.len() implies plain_name(#[trigger] ps[i]) by {
        let s = ps[i];
        assert forall|k: int| 0 <= k < s.len() implies 'a' <= #[trigger] s[k] <= 'z' by {
            if i == 0 { assert(s == "go"@); }
            else if i == 1 { assert(s == "npm"@); }
            else if i == 2 { assert(s == "npx"@); }
            else if i == 3 { assert(s == "node"@); }
            else if i == 4 { assert(s == "yarn"@); }
            else if i == 5 { assert(s == "pnpm"@); }
            else if i == 6 { assert(s == "git"@); }
            else if i == 7 { assert(s == "gh"@); }
            else if i == 8 { assert(s == "cargo"@); }
            else if i == 9 { assert(s == "rustc"@); }
            else if i == 10 { assert(s == "rg"@); }
            else { assert(s == "bazel"@); }
        }
    }
    lemma_allowlist_of_plain(ps);
}

/// The allowlist that a configuration yields, when it is accepted, holds
/// exactly the trimmed, lower-cased, non-blank entries of `allowed_programs`.
pub proof fn lemma_allowlist_names(programs: Seq<Seq<char>>)
    ensures
        allowlist_of(programs) matches Some(acc) ==> forall|name: Seq<char>|
            acc.contains(name) <==> exists|i: int|
                0 <= i < programs.len() && trimmed(#[trigger] programs[i]).len() > 0 && lower_seq(
                    trimmed(programs[i]),
                ) == name,
    decreases programs.len(),
{
    if programs.len() > 0 {
        let p = programs.drop_last();
        lemma_allowlist_names(p);
        if let Some(acc) = allowlist_of(programs) {
            let prev = allowlist_of(p)->0;
            let t = trimmed(programs.last());
            assert forall|name: Seq<char>|
                acc.contains(name) <==> exists|i: int|
                    0 <= i < programs.len() && trimmed(#[trigger] programs[i]).len() > 0 && lower_seq(
                        trimmed(programs[i]),
                    ) == name by {
                if acc.contains(name) {
                    let k = choose|k: int| 0 <= k < acc.len() && acc[k] == name;
                    if k < prev.len() {
                        assert(prev[k] == name);
                        assert(prev.contains(name));
                        let i = choose|i: int|
                            0 <= i < p.len() && trimmed(#[trigger] p[i]).len() > 0 && lower_seq(trimmed(p[i]))
                                == name;
                        assert(programs[i] == p[i]);
                    } else {
                        assert(programs[programs.len() - 1] == programs.last());
                    }
                }
                if exists|i: int|
                    0 <= i < programs.len() && trimmed(#[trigger] programs[i]).len() > 0 && lower_seq(
                        trimmed(programs[i]),
                    ) == name {
                    let i = choose|i: int|
                        0 <= i < programs.len() && trimmed(#[trigger] programs[i]).len() > 0 && lower_seq(
                            trimmed(programs[i]),
                        ) == name;
                    if i < programs.len() - 1 {
                        assert(p[i] == programs[i]);
                        assert(prev.contains(name));
                        let k = choose|k: int| 0 <= k < prev.len() && prev[k] == name;
                        if t.len() > 0 {
                            assert(acc[k] == prev[k]);
                        }
                    } else {
                        assert(acc[acc.len() - 1] == name);
                    }
                }
            }
        }
    }
}

} // verus!
