//! Plain message types exchanged by the agent runtime (`aiagentkit.v1`) and by
//! `depbot` (`depbot.v1`). Every scalar field is optional, as on the wire.
use vstd::prelude::*;

verus! {

/// Who authored a chat message.
#[derive(Clone, Copy, Debug, PartialEq, Eq, Structural, Default)]
pub enum Role {
    #[default]
    Unspecified,
    System,
    User,
    Assistant,
    Tool,
}

#[derive(Clone, Debug, PartialEq, Default)]
pub struct ToolCall {
    pub id: Option<String>,
    pub name: Option<String>,
    pub arguments_json: Option<String>,
}

#[derive(Clone, Debug, PartialEq, Default)]
pub struct Message {
    pub role: Option<Role>,
    pub content: Option<String>,
    pub name: Option<String>,
    pub tool_call_id: Option<String>,
    pub tool_calls: Vec<ToolCall>,
}

#[derive(Clone, Debug, PartialEq, Default)]
pub struct ToolSpec {
    pub name: Option<String>,
    pub description: Option<String>,
    pub parameters_json: Option<String>,
}

#[derive(Clone, Debug, PartialEq, Default)]
pub struct SkillFile {
    pub name: Option<String>,
    pub content: Option<String>,
}

#[derive(Clone, Debug, PartialEq, Default)]
pub struct SkillBundle {
    pub skill_id: Option<String>,
    pub root_path: Option<String>,
    pub files: Vec<SkillFile>,
}

#[derive(Clone, Debug, PartialEq, Default)]
pub struct LoadSkills {
    pub workspace_root: Option<String>,
    pub skill_id: Option<String>,
}

#[derive(Clone, Debug, PartialEq, Default)]
pub struct RunAgent {
    pub workspace_root: Option<String>,
    pub skill_id: Option<String>,
    pub system_prompt: Option<String>,
    pub user_message: Option<String>,
    pub max_steps: Option<u32>,
}

#[derive(Clone, Debug, PartialEq, Default)]
pub struct AgentTurn {
    pub final_text: Option<String>,
    pub steps: Option<u32>,
    pub messages: Vec<Message>,
}

#[derive(Clone, Debug, PartialEq, Default)]
pub struct RetryPolicy {
    pub max_attempts: Option<u32>,
    pub initial_backoff_ms: Option<u32>,
    pub max_backoff_ms: Option<u32>,
}

#[derive(Clone, Debug, PartialEq, Default)]
pub struct OpenAiCompatibleLlmConfig {
    pub base_url: Option<String>,
    pub api_key: Option<String>,
    pub model: Option<String>,
}

#[derive(Clone, Debug, PartialEq, Default)]
pub struct AgentLlmStep {
    pub step: Option<u32>,
    pub tool_call_count: Option<u32>,
    pub content: Option<String>,
}

#[derive(Clone, Debug, PartialEq, Default)]
pub struct AgentToolCall {
    pub step: Option<u32>,
    pub tool_call_id: Option<String>,
    pub tool_name: Option<String>,
    pub arguments_json: Option<String>,
}

#[derive(Clone, Debug, PartialEq, Default)]
pub struct AgentToolResult {
    pub step: Option<u32>,
    pub tool_call_id: Option<String>,
    pub tool_name: Option<String>,
    pub ok: Option<bool>,
    pub output: Option<String>,
}

#[derive(Clone, Debug, PartialEq, Default)]
pub struct ShellToolConfig {
    pub workspace_root: Option<String>,
    pub allowed_programs: Vec<String>,
    pub default_timeout_ms: Option<u32>,
    pub max_timeout_ms: Option<u32>,
    pub max_output_bytes: Option<u64>,
    pub curl_url_prefixes: Vec<String>,
}

#[derive(Clone, Debug, PartialEq, Default)]
pub struct RunCommand {
    pub program: Option<String>,
    pub args: Vec<String>,
    pub cwd: Option<String>,
    pub timeout_ms: Option<u32>,
}

#[derive(Clone, Debug, PartialEq, Default)]
pub struct CommandResult {
    pub exit_code: Option<i32>,
    pub stdout: Option<String>,
    pub stderr: Option<String>,
    pub timed_out: Option<bool>,
    pub truncated: Option<bool>,
    pub duration_ms: Option<u64>,
    pub program: Option<String>,
    pub cwd: Option<String>,
}

#[derive(Clone, Debug, PartialEq, Default)]
pub struct ReadFile {
    pub path: Option<String>,
}

#[derive(Clone, Debug, PartialEq, Default)]
pub struct ListDir {
    pub path: Option<String>,
}

#[derive(Clone, Debug, PartialEq, Default)]
pub struct FileContent {
    pub path: Option<String>,
    pub content: Option<String>,
}

#[derive(Clone, Debug, PartialEq, Default)]
pub struct DirEntry {
    pub name: Option<String>,
    pub is_dir: Option<bool>,
}

#[derive(Clone, Debug, PartialEq, Default)]
pub struct DirListing {
    pub path: Option<String>,
    pub entries: Vec<DirEntry>,
}

/// `depbot.v1.ShellSection`.
#[derive(Clone, Debug, PartialEq, Default)]
pub struct ShellSection {
    pub allowed_programs: Vec<String>,
    pub default_timeout_ms: Option<u32>,
    pub max_timeout_ms: Option<u32>,
    pub max_output_bytes: Option<u64>,
}

/// `depbot.v1.CurlSection`.
#[derive(Clone, Debug, PartialEq, Default)]
pub struct CurlSection {
    pub url_prefixes: Vec<String>,
}

/// `depbot.v1.ToolsFile`: the contents of `.depbot/tools.yaml`.
#[derive(Clone, Debug, PartialEq, Default)]
pub struct ToolsFile {
    pub version: Option<i32>,
    pub shell: Option<ShellSection>,
    pub curl: Option<CurlSection>,
}

#[derive(Clone, Debug, PartialEq, Default)]
pub struct EcosystemNeed {
    pub ecosystem: Option<String>,
    pub evidence_path: Option<String>,
    pub required_programs: Vec<String>,
}

#[derive(Clone, Debug, PartialEq, Default)]
pub struct DoctorIssue {
    pub program: Option<String>,
    pub ecosystem: Option<String>,
    pub message: Option<String>,
}

#[derive(Clone, Debug, PartialEq, Default)]
pub struct DoctorReport {
    pub ok: Option<bool>,
    pub needs: Vec<EcosystemNeed>,
    pub issues: Vec<DoctorIssue>,
}

/// A copy of an optional string.
pub fn copy_opt(o: &Option<String>) -> (r: Option<String>)
    ensures
        r == *o,
{
    match o {
        Some(s) => Some(s.clone()),
        None => None,
    }
}

pub fn copy_strings(v: &Vec<String>) -> (r: Vec<String>)
    ensures
        r@ == v@,
{
    let mut out: Vec<String> = Vec::new();
    let n = v.len();
    let mut i: usize = 0;
    while i < n
        invariant
            n == v@.len(),
            i <= n,
            out@ == v@.take(i as int),
        decreases n - i,
    {
        out.push(v[i].clone());
        assert(v@.take(i + 1) =~= v@.take(i as int).push(v@[i as int]));
        i += 1;
    }
    assert(v@.take(n as int) =~= v@);
    out
}

pub fn copy_tool_call(c: &ToolCall) -> (r: ToolCall)
    ensures
        r == *c,
{
    ToolCall { id: copy_opt(&c.id), name: copy_opt(&c.name), arguments_json: copy_opt(&c.arguments_json) }
}

pub fn copy_tool_calls(v: &Vec<ToolCall>) -> (r: Vec<ToolCall>)
    ensures
        r@ == v@,
{
    let mut out: Vec<ToolCall> = Vec::new();
    let n = v.len();
    let mut i: usize = 0;
    while i < n
        invariant
            n == v@.len(),
            i <= n,
            out@ == v@.take(i as int),
        decreases n - i,
    {
        out.push(copy_tool_call(&v[i]));
        assert(v@.take(i + 1) =~= v@.take(i as int).push(v@[i as int]));
        i += 1;
    }
    assert(v@.take(n as int) =~= v@);
    out
}

} // verus!
