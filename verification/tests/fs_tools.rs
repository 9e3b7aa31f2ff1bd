use agent_kit::fs_tools::{
    check_list_dir, check_read_file, list_dir_tool_spec, read_file_tool_spec, requested_path, sort_dir_entries,
    MAX_READ_FILE_BYTES,
};
use agent_kit::paths::{check_relative, check_within, join_under_root, path_components, path_is_within, path_join};
use agent_kit::tools::ToolError;
use agent_kit::wire::DirEntry;

fn resolve(root: &str, rel: &str) -> Result<String, String> {
    check_relative(rel)?;
    let joined = join_under_root(root, rel)?;
    check_within(joined, root)
}

#[test]
fn rejects_parent_escape() {
    let err = resolve("/tmp/ws", "../secret").unwrap_err();
    assert!(err.contains(".."), "{err}");
}

#[test]
fn rejects_absolute_path() {
    let err = resolve("/tmp/ws", "/tmp/ws/hello.txt").unwrap_err();
    assert!(err.contains("relative"), "{err}");
}

#[test]
fn relative_paths_resolve_under_root() {
    assert_eq!(resolve("/tmp/ws", "hello.txt").unwrap(), "/tmp/ws/hello.txt");
    assert_eq!(resolve("/tmp/ws", "./a//b/./c/").unwrap(), "/tmp/ws/a/b/c");
    assert_eq!(resolve("/tmp/ws", ".").unwrap(), "/tmp/ws");
    assert_eq!(resolve("/tmp/ws/", "x").unwrap(), "/tmp/ws/x");
    assert_eq!(join_under_root("/tmp/ws", "a/../b"), Err("path must not contain '..'".to_string()));
}

#[test]
fn followed_links_must_stay_inside() {
    assert_eq!(check_within("/tmp/ws/a".to_string(), "/tmp/ws"), Ok("/tmp/ws/a".to_string()));
    assert_eq!(check_within("/tmp/ws".to_string(), "/tmp/ws/"), Ok("/tmp/ws".to_string()));
    assert_eq!(
        check_within("/tmp/wsx/a".to_string(), "/tmp/ws"),
        Err("path escapes the workspace root".to_string())
    );
    assert_eq!(check_within("/etc/passwd".to_string(), "/tmp/ws"), Err("path escapes the workspace root".to_string()));
}

#[test]
fn components_follow_unix_rules() {
    assert_eq!(path_components("/a//b/./c/"), vec!["/", "a", "b", "c"]);
    assert_eq!(path_components("./a/../b"), vec![".", "a", "..", "b"]);
    assert_eq!(path_components("a/."), vec!["a"]);
    assert_eq!(path_components(""), Vec::<String>::new());
    assert!(path_is_within("/tmp/ws/a/b", "/tmp/ws"));
    assert!(!path_is_within("/tmp/ws", "/tmp/ws/a"));
    assert!(!path_is_within("/tmp/wsa", "/tmp/ws"));
}

#[test]
fn joining_paths() {
    assert_eq!(path_join("/tmp/ws", ".skills"), "/tmp/ws/.skills");
    assert_eq!(path_join("/tmp/ws/", "x"), "/tmp/ws/x");
    assert_eq!(path_join("/tmp/ws", "/abs"), "/abs");
    assert_eq!(path_join("", "x"), "x");
}

#[test]
fn missing_or_blank_path_is_required() {
    assert_eq!(requested_path("read_file", &Some("  a.txt ".to_string())).unwrap(), "a.txt");
    let err = requested_path("list_dir", &Some(" \t".to_string())).unwrap_err();
    assert_eq!(err.to_string(), "tool `list_dir` failed: path is required");
    assert!(requested_path("read_file", &None).is_err());
}

#[test]
fn oversize_file_errors() {
    let err = check_read_file("big.bin", true, MAX_READ_FILE_BYTES + 4096).unwrap_err();
    assert!(err.to_string().contains("max size"), "{}", err.to_string());
    assert_eq!(
        err,
        ToolError::Failed {
            name: "read_file".to_string(),
            message: "file exceeds max size (262144 bytes): 266240 bytes".to_string(),
        }
    );
    assert!(check_read_file("ok.txt", true, MAX_READ_FILE_BYTES).is_ok());
    assert_eq!(
        check_read_file("dir", false, 0).unwrap_err().to_string(),
        "tool `read_file` failed: dir is not a file"
    );
}

#[test]
fn list_dir_needs_a_directory() {
    assert!(check_list_dir("sub", true).is_ok());
    assert_eq!(check_list_dir("a.txt", false).unwrap_err().to_string(), "tool `list_dir` failed: a.txt is not a directory");
}

#[test]
fn listing_is_sorted_by_name() {
    let e = |n: &str, d: bool| DirEntry { name: Some(n.to_string()), is_dir: Some(d) };
    let sorted = sort_dir_entries(vec![e("sub", true), e("a.txt", false), e("B", false), e("ä", false)]);
    let names: Vec<&str> = sorted.iter().map(|x| x.name.as_deref().unwrap()).collect();
    assert_eq!(names, vec!["B", "a.txt", "sub", "ä"]);
    assert_eq!(sorted[2].is_dir, Some(true));
    assert!(sort_dir_entries(Vec::new()).is_empty());
}

#[test]
fn listing_sort_keeps_order_of_equal_names() {
    let e = |n: &str, d: bool| DirEntry { name: Some(n.to_string()), is_dir: Some(d) };
    let sorted = sort_dir_entries(vec![e("x", true), e("b", false), e("x", false), e("a", true)]);
    let got: Vec<(String, bool)> = sorted.iter().map(|x| (x.name.clone().unwrap(), x.is_dir.unwrap())).collect();
    let want = vec![("a", true), ("b", false), ("x", true), ("x", false)];
    assert_eq!(got, want.into_iter().map(|(n, d)| (n.to_string(), d)).collect::<Vec<_>>());
    let unnamed = sort_dir_entries(vec![e("b", false), DirEntry { name: None, is_dir: None }]);
    assert_eq!(unnamed[0].name, None);
}

#[test]
fn fs_tool_specs() {
    let r = read_file_tool_spec();
    assert_eq!(r.name.as_deref(), Some("read_file"));
    assert!(r.parameters_json.unwrap().contains("\"required\": [\"path\"]"));
    let l = list_dir_tool_spec();
    assert_eq!(l.name.as_deref(), Some("list_dir"));
    assert!(l.parameters_json.unwrap().contains("(\\\".\\\" = workspace root)"));
}

#[test]
fn any_parent_component_is_refused() {
    for rel in ["..", "a/..", "./a/b/../c", "a//../.."] {
        assert_eq!(join_under_root("/tmp/ws", rel), Err("path must not contain '..'".to_string()), "{rel}");
    }
    assert_eq!(join_under_root("/tmp/ws", "a/..b").unwrap(), "/tmp/ws/a/..b");
}
