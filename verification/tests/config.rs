use agent_kit::depbot_config::{shell_tool_config_from_tools_file, validate_tools_file, ConfigError, DEFAULT_TOOLS_CONFIG};
use agent_kit::wire::{CurlSection, ShellSection, ToolsFile};

fn example(prefixes: &[&str]) -> ToolsFile {
    ToolsFile {
        version: Some(1),
        shell: Some(ShellSection {
            allowed_programs: vec!["git".into(), "curl".into()],
            default_timeout_ms: Some(1000),
            max_timeout_ms: Some(2000),
            max_output_bytes: Some(4096),
        }),
        curl: Some(CurlSection { url_prefixes: prefixes.iter().map(|s| (*s).to_owned()).collect() }),
    }
}

fn invalid_text(file: &ToolsFile) -> String {
    match validate_tools_file(file) {
        Err(ConfigError::Invalid(m)) => m,
        Err(e) => e.to_string(),
        Ok(()) => "ok".to_string(),
    }
}

#[test]
fn loads_example_shape() {
    let file = example(&["https://registry.bazel.build/"]);
    assert!(validate_tools_file(&file).is_ok());
    let cfg = shell_tool_config_from_tools_file(&file, "/tmp/ws".to_string()).unwrap();
    assert_eq!(cfg.allowed_programs, vec!["git", "curl"]);
    assert_eq!(cfg.curl_url_prefixes, vec!["https://registry.bazel.build/".to_owned()]);
    assert_eq!(cfg.default_timeout_ms, Some(1000));
    assert_eq!(cfg.workspace_root.as_deref(), Some("/tmp/ws"));
}

#[test]
fn rejects_http_curl_prefix() {
    let err = validate_tools_file(&example(&["http://evil.example/"])).unwrap_err();
    assert!(err.to_string().contains("https://"));
    assert_eq!(
        err.to_string(),
        "ToolsFile.curl.url_prefixes must start with https://: \"http://evil.example/\""
    );
}

#[test]
fn blank_prefixes_are_dropped_and_trimmed() {
    let file = example(&["  ", " https://a/ ", ""]);
    let cfg = shell_tool_config_from_tools_file(&file, "/w".to_string()).unwrap();
    assert_eq!(cfg.curl_url_prefixes, vec!["https://a/".to_owned()]);
    let mut no_curl = example(&[]);
    no_curl.curl = None;
    assert!(shell_tool_config_from_tools_file(&no_curl, "/w".to_string()).unwrap().curl_url_prefixes.is_empty());
}

#[test]
fn tools_file_checks_in_order() {
    let mut f = example(&[]);
    f.version = None;
    assert_eq!(invalid_text(&f), "ToolsFile.version is required");
    f.version = Some(0);
    assert_eq!(invalid_text(&f), "ToolsFile.version must be >= 1, got 0");
    f.version = Some(-3);
    assert_eq!(invalid_text(&f), "ToolsFile.version must be >= 1, got -3");
    f.version = Some(2);
    let shell = f.shell.take();
    assert_eq!(invalid_text(&f), "ToolsFile.shell is required");
    f.shell = shell;
    f.shell.as_mut().unwrap().default_timeout_ms = Some(0);
    assert_eq!(invalid_text(&f), "ToolsFile.shell.default_timeout_ms must be >= 1");
    f.shell.as_mut().unwrap().default_timeout_ms = Some(3000);
    assert_eq!(invalid_text(&f), "ToolsFile.shell.default_timeout_ms must be <= max_timeout_ms");
    f.shell.as_mut().unwrap().max_timeout_ms = None;
    assert_eq!(invalid_text(&f), "ToolsFile.shell.max_timeout_ms must be >= 1");
    f.shell.as_mut().unwrap().max_timeout_ms = Some(3000);
    f.shell.as_mut().unwrap().max_output_bytes = Some(0);
    assert_eq!(invalid_text(&f), "ToolsFile.shell.max_output_bytes must be >= 1");
    f.shell.as_mut().unwrap().max_output_bytes = Some(1);
    assert_eq!(invalid_text(&f), "ok");
    let err = shell_tool_config_from_tools_file(&example(&["ftp://x"]), "/w".to_string()).unwrap_err();
    assert!(matches!(err, ConfigError::Invalid(_)));
}

#[test]
fn config_error_texts() {
    assert_eq!(DEFAULT_TOOLS_CONFIG, ".depbot/tools.yaml");
    assert_eq!(
        ConfigError::Io { path: "a.yaml".into(), message: "gone".into() }.to_string(),
        "read a.yaml: gone"
    );
    assert_eq!(ConfigError::Yaml("bad".into()).to_string(), "parse YAML as JSON value: bad");
    assert_eq!(ConfigError::ProtoJson("bad".into()).to_string(), "decode ToolsFile from JSON: bad");
}
