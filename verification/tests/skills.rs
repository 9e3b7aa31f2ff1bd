use agent_kit::skills::{check_skill_dir, markdown_files, skill_location, sort_names, SkillsError};
use agent_kit::wire::LoadSkills;

fn params(workspace_root: &str, skill_id: &str) -> LoadSkills {
    LoadSkills { workspace_root: Some(workspace_root.to_string()), skill_id: Some(skill_id.to_string()) }
}

#[test]
fn empty_skill_id_errors() {
    let err = skill_location(&params("/tmp/ws", "  ")).unwrap_err();
    assert!(matches!(err, SkillsError::MissingSkillId));
}

#[test]
fn workspace_root_is_checked_first() {
    let err = skill_location(&params(" ", " ")).unwrap_err();
    assert_eq!(err, SkillsError::MissingWorkspaceRoot);
    assert_eq!(err.to_string(), "workspace_root is required");
    let none = LoadSkills { workspace_root: Some("/w".into()), skill_id: None };
    assert_eq!(skill_location(&none).unwrap_err().to_string(), "skill_id is required");
}

#[test]
fn skill_dir_is_under_dot_skills() {
    let loc = skill_location(&params(" /tmp/ws ", " depbot ")).unwrap();
    assert_eq!(loc.skill_id, "depbot");
    assert_eq!(loc.skill_dir, "/tmp/ws/.skills/depbot");
    let loc = skill_location(&params("/tmp/ws/", "demo")).unwrap();
    assert_eq!(loc.skill_dir, "/tmp/ws/.skills/demo");
}

#[test]
fn markdown_skills_are_picked_and_sorted() {
    let names = vec!["grouping.md".to_string(), "notes.txt".to_string(), "SKILL.md".to_string(), "md".to_string()];
    assert_eq!(markdown_files(names), vec!["SKILL.md".to_string(), "grouping.md".to_string()]);
    assert!(markdown_files(Vec::new()).is_empty());
}

#[test]
fn names_sort_bytewise() {
    let v = |a: &[&str]| a.iter().map(|s| s.to_string()).collect::<Vec<String>>();
    assert_eq!(sort_names(v(&["b", "a", "B", "ab", "a"])), v(&["B", "a", "a", "ab", "b"]));
}

#[test]
fn skills_error_texts() {
    assert_eq!(SkillsError::SkillDirNotFound("/x".into()).to_string(), "skill directory not found: /x");
    assert_eq!(SkillsError::SkillPathNotDir("/x".into()).to_string(), "skill path is not a directory: /x");
    assert_eq!(
        SkillsError::Io { path: "/x".into(), message: "denied".into() }.to_string(),
        "io error at /x: denied"
    );
}

#[test]
fn skill_dir_must_exist_and_be_a_directory() {
    let loc = skill_location(&params("/tmp/ws", "missing")).unwrap();
    assert_eq!(check_skill_dir(&loc, false, false), Err(SkillsError::SkillDirNotFound("/tmp/ws/.skills/missing".into())));
    assert_eq!(check_skill_dir(&loc, true, false), Err(SkillsError::SkillPathNotDir("/tmp/ws/.skills/missing".into())));
    assert_eq!(check_skill_dir(&loc, true, true), Ok(()));
}
