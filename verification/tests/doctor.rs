use agent_kit::doctor::{candidate_name, is_module_bazel_name};
use agent_kit::doctor::{
    detect_ecosystem_needs, doctor_needs, format_doctor_context, format_doctor_failure,
    run_doctor, WorkspaceProbe,
};
use agent_kit::wire::{DoctorIssue, DoctorReport, EcosystemNeed, ShellSection, ToolsFile};

fn tools_with(programs: &[&str]) -> ToolsFile {
    ToolsFile {
        version: Some(1),
        shell: Some(ShellSection {
            allowed_programs: programs.iter().map(|s| (*s).to_owned()).collect(),
            default_timeout_ms: Some(1000),
            max_timeout_ms: Some(2000),
            max_output_bytes: Some(4096),
        }),
        curl: None,
    }
}

fn strings(v: &[&str]) -> Vec<String> {
    v.iter().map(|s| (*s).to_owned()).collect()
}

fn cargo_probe() -> WorkspaceProbe {
    WorkspaceProbe { cargo_toml: true, ..WorkspaceProbe::default() }
}

#[test]
fn detects_cargo_and_requires_cargo() {
    let tools = tools_with(&["cargo"]);
    for found in [true, false] {
        let on_path = if found { strings(&["cargo"]) } else { Vec::new() };
        let report = run_doctor(&cargo_probe(), &tools, &on_path).unwrap();
        assert!(report.needs.iter().any(|n| n.ecosystem.as_deref() == Some("cargo")));
        assert_eq!(report.issues.iter().any(|i| i.program.as_deref() == Some("cargo")), !found);
    }
}

#[test]
fn fails_when_cargo_not_allowlisted() {
    let tools = tools_with(&["git"]);
    let report = run_doctor(&cargo_probe(), &tools, &strings(&["cargo"])).unwrap();
    assert_eq!(report.ok, Some(false));
    assert!(report.issues.iter().any(|i| i.program.as_deref() == Some("cargo")));
    let msg = format_doctor_failure(&report);
    assert!(msg.contains("allowed_programs"), "{msg}");
}

#[test]
fn npm_picks_pnpm_from_lockfile() {
    let probe = WorkspaceProbe { package_json: true, pnpm_lock: true, yarn_lock: true, ..WorkspaceProbe::default() };
    let tools = tools_with(&["pnpm"]);
    let report = run_doctor(&probe, &tools, &Vec::new()).unwrap();
    let npm = report.needs.iter().find(|n| n.ecosystem.as_deref() == Some("npm")).unwrap();
    assert_eq!(npm.required_programs, vec!["pnpm".to_owned()]);
}

#[test]
fn npm_falls_back_to_yarn_then_npm() {
    let yarn = WorkspaceProbe { package_json: true, yarn_lock: true, ..WorkspaceProbe::default() };
    assert_eq!(detect_ecosystem_needs(&yarn)[0].required_programs, strings(&["yarn"]));
    let npm = WorkspaceProbe { package_json: true, ..WorkspaceProbe::default() };
    assert_eq!(detect_ecosystem_needs(&npm)[0].required_programs, strings(&["npm"]));
    let lock_only = WorkspaceProbe { pnpm_lock: true, ..WorkspaceProbe::default() };
    assert!(detect_ecosystem_needs(&lock_only).is_empty());
}

#[test]
fn bazel_adds_curl_only_when_allowlisted() {
    let probe = WorkspaceProbe { module_bazel: true, ..WorkspaceProbe::default() };

    let without_curl = tools_with(&["bazel"]);
    let report = run_doctor(&probe, &without_curl, &Vec::new()).unwrap();
    let bazel = report.needs.iter().find(|n| n.ecosystem.as_deref() == Some("bazel")).unwrap();
    assert_eq!(bazel.required_programs, vec!["bazel".to_owned()]);

    let with_curl = tools_with(&["bazel", "curl"]);
    let report = run_doctor(&probe, &with_curl, &Vec::new()).unwrap();
    let bazel = report.needs.iter().find(|n| n.ecosystem.as_deref() == Some("bazel")).unwrap();
    assert_eq!(bazel.required_programs, vec!["bazel".to_owned(), "curl".to_owned()]);
}

#[test]
fn doctor_context_lists_detected_and_skips_absent() {
    let tools = tools_with(&["cargo"]);
    let report = run_doctor(&cargo_probe(), &tools, &strings(&["cargo"])).unwrap();
    assert_eq!(report.ok, Some(true));
    let ctx = format_doctor_context(&report);
    assert!(ctx.contains("`cargo`"), "{ctx}");
    assert!(ctx.contains("evidence `Cargo.toml`"), "{ctx}");
    assert!(ctx.contains("Do **not** spend tool calls"), "{ctx}");
    assert!(ctx.contains("Not detected at workspace root"), "{ctx}");
}

#[test]
fn needs_are_ordered_by_ecosystem() {
    let probe = WorkspaceProbe {
        go_mod: true,
        package_json: true,
        cargo_toml: true,
        rust_module_bazel: true,
        buf_yaml: true,
        ..WorkspaceProbe::default()
    };
    let needs = detect_ecosystem_needs(&probe);
    let ecos: Vec<&str> = needs.iter().map(|n| n.ecosystem.as_deref().unwrap()).collect();
    assert_eq!(ecos, vec!["bazel", "buf", "cargo", "go", "npm"]);
    assert_eq!(needs[0].evidence_path.as_deref(), Some("rust.MODULE.bazel"));
    let evidence: Vec<&str> = needs.iter().map(|n| n.evidence_path.as_deref().unwrap()).collect();
    assert_eq!(evidence, vec!["rust.MODULE.bazel", "buf.yaml", "Cargo.toml", "go.mod", "package.json"]);
    let both = WorkspaceProbe { module_bazel: true, rust_module_bazel: true, ..WorkspaceProbe::default() };
    assert_eq!(detect_ecosystem_needs(&both)[0].evidence_path.as_deref(), Some("MODULE.bazel"));
}

#[test]
fn allowlist_is_trimmed_and_lowercased() {
    let tools = tools_with(&[" Cargo ", "", "GIT", "  "]);
    let report = run_doctor(&cargo_probe(), &tools, &strings(&["cargo"])).unwrap();
    assert_eq!(report.ok, Some(true));
    let no_shell = ToolsFile { version: Some(1), shell: None, curl: None };
    let report = run_doctor(&cargo_probe(), &no_shell, &strings(&["cargo"])).unwrap();
    assert_eq!(report.ok, Some(false));
    assert!(report.issues[0].message.as_deref().unwrap().contains("not listed"));
}

#[test]
fn curl_allowlisted_in_any_case_is_added_once() {
    let probe = WorkspaceProbe { module_bazel: true, ..WorkspaceProbe::default() };
    let needs = doctor_needs(&probe, &tools_with(&["bazel", "CURL"]));
    assert_eq!(needs[0].required_programs, strings(&["bazel", "curl"]));
}

#[test]
fn ready_programs_give_an_ok_report() {
    let probe = WorkspaceProbe { go_mod: true, cargo_toml: true, ..WorkspaceProbe::default() };
    let report = run_doctor(&probe, &tools_with(&["go", "cargo"]), &strings(&["go", "cargo"])).unwrap();
    assert_eq!(report.ok, Some(true));
    assert!(report.issues.is_empty());
    assert_eq!(report.needs.len(), 2);
}

#[test]
fn issue_messages_name_ecosystem_and_evidence() {
    let probe = WorkspaceProbe { go_mod: true, cargo_toml: true, ..WorkspaceProbe::default() };
    let report = run_doctor(&probe, &tools_with(&["go"]), &Vec::new()).unwrap();
    assert_eq!(report.ok, Some(false));
    assert_eq!(report.issues.len(), 2);
    assert_eq!(report.issues[0].program.as_deref(), Some("cargo"));
    assert_eq!(report.issues[0].ecosystem.as_deref(), Some("cargo"));
    assert_eq!(
        report.issues[0].message.as_deref(),
        Some(
            "for cargo dependencies (found `Cargo.toml`) program `cargo` is required but not listed in \
             `.depbot/tools.yaml` allowed_programs; cannot continue"
        )
    );
    assert_eq!(
        report.issues[1].message.as_deref(),
        Some("for go dependencies (found `go.mod`) `go` must be installed and on PATH, but it was not found; cannot continue")
    );
}

#[test]
fn failure_text_lists_issues_and_ecosystems() {
    let report = DoctorReport {
        ok: Some(false),
        needs: vec![EcosystemNeed {
            ecosystem: Some("bazel".into()),
            evidence_path: Some("MODULE.bazel".into()),
            required_programs: strings(&["bazel", "curl"]),
        }],
        issues: vec![
            DoctorIssue { program: Some("bazel".into()), ecosystem: Some("bazel".into()), message: Some("m1".into()) },
            DoctorIssue { program: None, ecosystem: None, message: None },
        ],
    };
    assert_eq!(
        format_doctor_failure(&report),
        "depbot doctor failed: required tools are missing or not allowlisted.\n- m1\n- unknown issue\n\
         Detected ecosystems:\n- bazel (MODULE.bazel) → requires: bazel, curl"
    );
    let empty = DoctorReport { ok: Some(false), needs: vec![], issues: vec![] };
    assert_eq!(format_doctor_failure(&empty), "depbot doctor failed: required tools are missing or not allowlisted.");
}

#[test]
fn context_without_needs_says_none() {
    let report = DoctorReport { ok: Some(true), needs: vec![], issues: vec![] };
    let ctx = format_doctor_context(&report);
    let lines: Vec<&str> = ctx.split('\n').collect();
    assert_eq!(lines.len(), 9);
    assert_eq!(lines[0], "## Depbot doctor (preflight — trust these facts)");
    assert_eq!(lines[1], "");
    assert!(lines[6].starts_with("**Detected ecosystems (root):** none — no `go.mod`"));
    assert_eq!(lines[7], "");
    assert!(lines[8].starts_with("**Not detected at workspace root**"));
}

#[test]
fn context_lists_each_need() {
    let report = DoctorReport {
        ok: Some(true),
        needs: vec![EcosystemNeed { ecosystem: None, evidence_path: None, required_programs: strings(&["a", "b"]) }],
        issues: vec![],
    };
    let ctx = format_doctor_context(&report);
    assert!(ctx.contains("\n**Detected ecosystems (root):**\n- `?` — evidence `?`; tools ready: a, b\n\n"), "{ctx}");
}

#[test]
fn duplicate_program_is_reported_once_per_ecosystem() {
    let probe = WorkspaceProbe { module_bazel: true, ..WorkspaceProbe::default() };
    let mut needs_tools = tools_with(&["curl"]);
    needs_tools.shell.as_mut().unwrap().allowed_programs.push("Curl".into());
    let report = run_doctor(&probe, &needs_tools, &Vec::new()).unwrap();
    let programs: Vec<&str> = report.issues.iter().map(|i| i.program.as_deref().unwrap()).collect();
    assert_eq!(programs, vec!["bazel", "curl"]);
}

#[test]
fn module_bazel_names_and_path_candidates() {
    assert!(is_module_bazel_name("rust.MODULE.bazel"));
    assert!(is_module_bazel_name(".MODULE.bazel"));
    assert!(!is_module_bazel_name("MODULE.bazel"));
    assert!(!is_module_bazel_name("x.module.bazel"));
    assert_eq!(candidate_name("cargo", ".exe"), "cargo.exe");
    assert_eq!(candidate_name("CARGO.EXE", ".exe"), "CARGO.EXE");
    assert_eq!(candidate_name("go", ""), "go");
}
