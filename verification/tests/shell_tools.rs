use agent_kit::shell_tools::{poll_child, ChildPoll};
use agent_kit::paths::join_under_root;
use agent_kit::shell_tools::{
    check_git_guardrails, command_cwd, default_shell_tool_config, is_safe_program_basename,
    run_command_tool_spec, shell_workspace_root, take_lossy, truncate_outputs, RunCommandPolicy,
    DEFAULT_SHELL_MAX_OUTPUT_BYTES, DEFAULT_SHELL_MAX_TIMEOUT_MS, DEFAULT_SHELL_TIMEOUT_MS,
};
use agent_kit::tools::ToolError;
use agent_kit::wire::{RunCommand, ShellToolConfig};

fn cfg_for(root: &str, allow: &[&str]) -> ShellToolConfig {
    ShellToolConfig {
        workspace_root: Some(root.to_string()),
        allowed_programs: allow.iter().map(|s| (*s).to_owned()).collect(),
        default_timeout_ms: Some(5_000),
        max_timeout_ms: Some(10_000),
        max_output_bytes: Some(64 * 1024),
        curl_url_prefixes: Vec::new(),
    }
}

fn policy_for(allow: &[&str]) -> RunCommandPolicy {
    RunCommandPolicy::try_new(&cfg_for("/tmp/ws", allow), "/tmp/ws".to_string()).unwrap()
}

fn command(program: &str, args: &[&str], cwd: Option<&str>) -> RunCommand {
    RunCommand {
        program: Some(program.to_string()),
        args: args.iter().map(|s| (*s).to_owned()).collect(),
        cwd: cwd.map(|c| c.to_string()),
        timeout_ms: None,
    }
}

#[test]
fn default_config_has_allowlist() {
    let cfg = default_shell_tool_config("/tmp/ws".to_string());
    assert!(!cfg.allowed_programs.is_empty());
    assert_eq!(cfg.default_timeout_ms, Some(DEFAULT_SHELL_TIMEOUT_MS));
}

#[test]
fn default_config_is_accepted() {
    let cfg = default_shell_tool_config("/tmp/ws".to_string());
    assert_eq!(cfg.max_timeout_ms, Some(DEFAULT_SHELL_MAX_TIMEOUT_MS));
    assert_eq!(cfg.max_output_bytes, Some(DEFAULT_SHELL_MAX_OUTPUT_BYTES));
    let policy = RunCommandPolicy::try_new(&cfg, "/tmp/ws".to_string()).unwrap();
    assert_eq!(policy.workspace_root(), "/tmp/ws");
    assert_eq!(policy.max_output_bytes(), 256 * 1024);
    assert!(policy.check_invocation(&command("cargo", &["build"], None)).is_ok());
}

#[test]
fn rejects_non_allowlisted_program() {
    let policy = policy_for(&["echo"]);
    let err = policy.check_invocation(&command("rm", &["-rf", "/"], None)).unwrap_err();
    assert!(err.to_string().contains("not allowlisted"));
    assert_eq!(err.to_string(), "tool `run_command` failed: program `rm` is not allowlisted");
}

#[test]
fn rejects_path_program() {
    let policy = policy_for(&["echo"]);
    let err = policy.check_invocation(&command("/bin/echo", &["hi"], None)).unwrap_err();
    assert!(err.to_string().contains("basename"));
}

#[test]
fn rejects_cwd_escape() {
    let policy = policy_for(&["echo"]);
    let input = command("echo", &["hi"], Some(".."));
    assert!(policy.check_invocation(&input).is_ok());
    let cwd = command_cwd(&input);
    let err = join_under_root(policy.workspace_root(), &cwd).unwrap_err();
    assert!(err.contains("..") || err.contains("escape"));
}

#[test]
fn blocks_git_reset_hard() {
    let policy = policy_for(&["git"]);
    let err = policy
        .check_invocation(&command("git", &["reset", "--hard", "HEAD"], None))
        .unwrap_err();
    assert!(err.to_string().contains("reset --hard"));
}

#[test]
fn git_guardrails_each_rule() {
    let args = |a: &[&str]| a.iter().map(|s| s.to_string()).collect::<Vec<String>>();
    assert_eq!(
        check_git_guardrails(&args(&["PUSH", "--Force"])),
        Err("git force-push is blocked by guardrails".to_string())
    );
    assert_eq!(
        check_git_guardrails(&args(&["push", "-f"])),
        Err("git force-push is blocked by guardrails".to_string())
    );
    assert_eq!(
        check_git_guardrails(&args(&["clean", "-fdx"])),
        Err("git clean is blocked by guardrails".to_string())
    );
    assert_eq!(
        check_git_guardrails(&args(&["filter-repo"])),
        Err("git history rewrite commands are blocked by guardrails".to_string())
    );
    assert_eq!(check_git_guardrails(&args(&["push", "origin", "main"])), Ok(()));
    assert_eq!(check_git_guardrails(&args(&["reset", "HEAD~1"])), Ok(()));
}

#[test]
fn program_is_matched_case_insensitively() {
    let policy = policy_for(&[" Echo "]);
    assert_eq!(policy.check_invocation(&command("ECHO", &[], None)).unwrap(), "ECHO");
    assert_eq!(policy.check_invocation(&command("  echo ", &[], None)).unwrap(), "echo");
}

#[test]
fn missing_program_and_nul_arguments_are_refused() {
    let policy = policy_for(&["echo"]);
    let mut input = command("  ", &[], None);
    assert_eq!(
        policy.check_invocation(&input),
        Err(ToolError::Failed { name: "run_command".to_string(), message: "program is required".to_string() })
    );
    input.program = None;
    assert!(policy.check_invocation(&input).is_err());
    let err = policy.check_invocation(&command("echo", &["a\0b"], None)).unwrap_err();
    assert_eq!(err.to_string(), "tool `run_command` failed: args must not contain NUL bytes");
}

#[test]
fn bad_allowlist_entry_is_quoted() {
    let err = RunCommandPolicy::try_new(&cfg_for("/tmp/ws", &["git", " /bin/sh "]), "/tmp/ws".to_string())
        .err()
        .unwrap();
    assert_eq!(
        err,
        ToolError::Failed {
            name: "run_command".to_string(),
            message: "ShellToolConfig.allowed_programs entry must be a basename: \"/bin/sh\"".to_string(),
        }
    );
}

#[test]
fn config_timeouts_are_checked_in_order() {
    let mut cfg = cfg_for("/tmp/ws", &["git"]);
    cfg.default_timeout_ms = Some(0);
    let msg = |c: &ShellToolConfig| match RunCommandPolicy::try_new(c, "/tmp/ws".to_string()) {
        Err(ToolError::Failed { message, .. }) => message,
        _ => String::from("ok"),
    };
    assert_eq!(msg(&cfg), "ShellToolConfig.default_timeout_ms must be >= 1");
    cfg.default_timeout_ms = Some(20_000);
    assert_eq!(msg(&cfg), "ShellToolConfig.default_timeout_ms must be <= max_timeout_ms");
    cfg.default_timeout_ms = Some(1);
    cfg.max_timeout_ms = None;
    assert_eq!(msg(&cfg), "ShellToolConfig.max_timeout_ms must be >= 1");
    cfg.max_timeout_ms = Some(2);
    cfg.max_output_bytes = Some(0);
    assert_eq!(msg(&cfg), "ShellToolConfig.max_output_bytes must be >= 1");
    cfg.max_output_bytes = Some(1);
    assert_eq!(msg(&cfg), "ok");
}

#[test]
fn workspace_root_must_be_set() {
    let mut cfg = cfg_for("  /tmp/ws  ", &[]);
    assert_eq!(shell_workspace_root(&cfg).unwrap(), "/tmp/ws");
    cfg.workspace_root = Some("   ".to_string());
    let err = shell_workspace_root(&cfg).unwrap_err();
    assert_eq!(err.to_string(), "tool `run_command` failed: ShellToolConfig.workspace_root is required");
}

#[test]
fn timeout_is_capped_and_defaulted() {
    let policy = policy_for(&["echo"]);
    assert_eq!(policy.effective_timeout(None).unwrap(), 5_000);
    assert_eq!(policy.effective_timeout(Some(200)).unwrap(), 200);
    assert_eq!(policy.effective_timeout(Some(50_000)).unwrap(), 10_000);
    let err = policy.effective_timeout(Some(0)).unwrap_err();
    assert_eq!(err.to_string(), "tool `run_command` failed: timeout_ms must be >= 1 when set");
}

#[test]
fn cwd_defaults_to_workspace_root() {
    assert_eq!(command_cwd(&command("echo", &[], None)), ".");
    assert_eq!(command_cwd(&command("echo", &[], Some("  "))), ".");
    assert_eq!(command_cwd(&command("echo", &[], Some(" sub "))), "sub");
}

#[test]
fn basename_rules() {
    assert!(is_safe_program_basename("git"));
    assert!(!is_safe_program_basename(""));
    assert!(!is_safe_program_basename("."));
    assert!(!is_safe_program_basename(".."));
    assert!(!is_safe_program_basename("a/b"));
    assert!(!is_safe_program_basename("a\\b"));
    assert!(!is_safe_program_basename("C:foo"));
    assert!(is_safe_program_basename("é:x"));
}

#[test]
fn outputs_share_one_budget() {
    let (out, err, cut) = truncate_outputs(b"hello", b"world", 7);
    assert_eq!(out, "hello");
    assert_eq!(err, "wo\n…[truncated]");
    assert!(cut);
    let (out, err, cut) = truncate_outputs(b"hi", b"there", 100);
    assert_eq!((out.as_str(), err.as_str(), cut), ("hi", "there", false));
    let (out, err, cut) = truncate_outputs(b"abcdef", b"", 3);
    assert_eq!((out.as_str(), err.as_str(), cut), ("abc\n…[truncated]", "", true));
}

#[test]
fn invalid_utf8_is_replaced() {
    let (s, cut) = take_lossy(&[0x68, 0x69, 0xff], 10);
    assert_eq!(s, "hi\u{FFFD}");
    assert!(!cut);
    let (s, cut) = take_lossy("héllo".as_bytes(), 2);
    assert_eq!(s, "h\u{FFFD}\n…[truncated]");
    assert!(cut);
}

#[test]
fn run_command_spec_names_the_tool() {
    let spec = run_command_tool_spec();
    assert_eq!(spec.name.as_deref(), Some("run_command"));
    let params = spec.parameters_json.unwrap();
    assert!(params.contains("\"required\": [\"program\"]"));
    assert!(spec.description.unwrap().starts_with("Run an allowlisted program"));
}

#[test]
fn time_limit_and_exit_codes() {
    assert_eq!(poll_child(None, 199, 200), ChildPoll::Running);
    assert_eq!(poll_child(None, 200, 200), ChildPoll::Finished { exit_code: -1, timed_out: true });
    assert_eq!(poll_child(Some(Some(3)), 5000, 200), ChildPoll::Finished { exit_code: 3, timed_out: false });
    assert_eq!(poll_child(Some(None), 0, 200), ChildPoll::Finished { exit_code: -1, timed_out: false });
}

#[test]
fn run_plan_checks_in_order() {
    let policy = policy_for(&["echo", "git"]);
    let plan = policy.plan_run(&command(" echo ", &["hi"], Some(" sub ")), Ok(true)).unwrap();
    assert_eq!((plan.program.as_str(), plan.cwd.as_str(), plan.timeout_ms), ("echo", "sub", 5_000));
    let msg = |r: Result<agent_kit::shell_tools::RunPlan, ToolError>| r.err().unwrap().to_string();
    assert_eq!(
        msg(policy.plan_run(&command("rm", &[], None), Err("path escapes the workspace root".into()))),
        "tool `run_command` failed: program `rm` is not allowlisted"
    );
    assert_eq!(
        msg(policy.plan_run(&command("echo", &[], Some("..")), Err("path must not contain '..'".into()))),
        "tool `run_command` failed: path must not contain '..'"
    );
    assert_eq!(
        msg(policy.plan_run(&command("echo", &[], Some("a.txt")), Ok(false))),
        "tool `run_command` failed: cwd `a.txt` is not a directory"
    );
    let mut zero = command("echo", &[], None);
    zero.timeout_ms = Some(0);
    assert_eq!(msg(policy.plan_run(&zero, Ok(true))), "tool `run_command` failed: timeout_ms must be >= 1 when set");
    zero.timeout_ms = Some(50_000);
    assert_eq!(policy.plan_run(&zero, Ok(true)).unwrap().timeout_ms, 10_000);
}

#[test]
fn replaced_bytes_use_up_the_budget() {
    let (out, err, cut) = truncate_outputs(&[0xff, 0xff], b"abc", 4);
    assert_eq!(out, "\u{FFFD}\u{FFFD}");
    assert_eq!(err, "\n…[truncated]");
    assert!(cut);
}
