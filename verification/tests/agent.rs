use std::sync::Mutex;

use agent_kit::agent::{format_skills_prompt, plan_agent_run, AgentRun, Error};
use agent_kit::llm::{AssistantTurn, LlmError};
use agent_kit::observe::{AgentObserver, NoopObserver};
use agent_kit::skills::SkillsError;
use agent_kit::tools::{Tool, ToolError, ToolRegistry};
use agent_kit::wire::{
    AgentLlmStep, AgentToolCall, AgentToolResult, Role, RunAgent, SkillBundle, SkillFile, ToolCall, ToolSpec,
};

struct EchoTool;

impl Tool for EchoTool {
    fn declared_spec(&self) -> ToolSpec {
        self.spec()
    }

    fn spec(&self) -> ToolSpec {
        ToolSpec {
            name: Some("echo".into()),
            description: Some("Echo arguments".into()),
            parameters_json: Some(r#"{"type":"object","properties":{"text":{"type":"string"}}}"#.into()),
        }
    }

    fn call(&self, arguments_json: &str) -> Result<String, ToolError> {
        Ok(format!("echoed:{arguments_json}"))
    }
}

#[derive(Default)]
struct RecordingObserver {
    llm_steps: Mutex<Vec<AgentLlmStep>>,
    tool_calls: Mutex<Vec<AgentToolCall>>,
    tool_results: Mutex<Vec<AgentToolResult>>,
}

impl AgentObserver for RecordingObserver {
    fn on_llm_step(&self, event: &AgentLlmStep) {
        self.llm_steps.lock().unwrap().push(event.clone());
    }

    fn on_tool_call(&self, event: &AgentToolCall) {
        self.tool_calls.lock().unwrap().push(event.clone());
    }

    fn on_tool_result(&self, event: &AgentToolResult) {
        self.tool_results.lock().unwrap().push(event.clone());
    }
}

fn params(user: &str, max_steps: u32) -> RunAgent {
    RunAgent {
        workspace_root: None,
        skill_id: None,
        system_prompt: None,
        user_message: Some(user.to_string()),
        max_steps: Some(max_steps),
    }
}

fn echo_call() -> AssistantTurn {
    AssistantTurn {
        content: None,
        tool_calls: vec![ToolCall {
            id: Some("call_1".into()),
            name: Some("echo".into()),
            arguments_json: Some(r#"{"text":"hi"}"#.into()),
        }],
    }
}

fn final_text(text: &str) -> AssistantTurn {
    AssistantTurn { content: Some(text.into()), tool_calls: vec![] }
}

#[test]
fn agent_run_tool_then_final_text() {
    let mut registry = ToolRegistry::new();
    registry.register(EchoTool);
    let setup = plan_agent_run(&params("please echo", 4)).unwrap();
    let mut run = AgentRun::start(&setup, None);
    assert_eq!(run.messages().len(), 1);
    assert!(run.can_call_llm());
    assert!(run.on_turn(echo_call(), &registry, &NoopObserver).is_none());
    let msgs = run.messages();
    assert_eq!(msgs.len(), 3);
    assert_eq!(msgs[2].role, Some(Role::Tool));
    assert_eq!(msgs[2].tool_call_id.as_deref(), Some("call_1"));
    assert_eq!(msgs[2].content.as_deref(), Some(r#"echoed:{"text":"hi"}"#));
    let turn = run.on_turn(final_text("all good"), &registry, &NoopObserver).unwrap();
    assert_eq!(turn.final_text.as_deref(), Some("all good"));
    assert_eq!(turn.steps, Some(2));
    assert!(turn.messages.len() >= 4);
}

#[test]
fn agent_run_emits_observer_events() {
    let mut registry = ToolRegistry::new();
    registry.register(EchoTool);
    let observer = RecordingObserver::default();
    let setup = plan_agent_run(&params("please echo", 4)).unwrap();
    let mut run = AgentRun::start(&setup, None);
    run.on_turn(echo_call(), &registry, &observer);
    run.on_turn(final_text("all good"), &registry, &observer);

    let llm_steps = observer.llm_steps.lock().unwrap();
    assert_eq!(llm_steps.len(), 2);
    assert_eq!(llm_steps[0].tool_call_count, Some(1));
    assert_eq!(llm_steps[1].tool_call_count, Some(0));
    assert_eq!(llm_steps[1].content.as_deref(), Some("all good"));
    let calls = observer.tool_calls.lock().unwrap();
    assert_eq!(calls.len(), 1);
    assert_eq!(calls[0].tool_name.as_deref(), Some("echo"));
    assert_eq!(calls[0].arguments_json.as_deref(), Some(r#"{"text":"hi"}"#));
    let results = observer.tool_results.lock().unwrap();
    assert_eq!(results.len(), 1);
    assert_eq!(results[0].ok, Some(true));
    assert_eq!(results[0].output.as_deref(), Some(r#"echoed:{"text":"hi"}"#));
}

#[test]
fn unknown_tool_is_answered_with_its_error() {
    let registry: ToolRegistry<EchoTool> = ToolRegistry::new();
    let observer = RecordingObserver::default();
    let setup = plan_agent_run(&params("go", 2)).unwrap();
    let mut run = AgentRun::start(&setup, None);
    let turn = AssistantTurn {
        content: Some("thinking".into()),
        tool_calls: vec![ToolCall { id: None, name: Some("nope".into()), arguments_json: None }],
    };
    assert!(run.on_turn(turn, &registry, &observer).is_none());
    let msgs = run.messages();
    assert_eq!(msgs[2].content.as_deref(), Some("unknown tool: nope"));
    assert_eq!(msgs[2].tool_call_id.as_deref(), Some(""));
    let results = observer.tool_results.lock().unwrap();
    assert_eq!(results[0].ok, Some(false));
    let calls = observer.tool_calls.lock().unwrap();
    assert_eq!(calls[0].arguments_json.as_deref(), Some("{}"));
}

#[test]
fn step_budget_runs_out() {
    let mut registry = ToolRegistry::new();
    registry.register(EchoTool);
    let setup = plan_agent_run(&params("loop", 2)).unwrap();
    let mut run = AgentRun::start(&setup, None);
    while run.can_call_llm() {
        assert!(run.on_turn(echo_call(), &registry, &NoopObserver).is_none());
    }
    assert_eq!(run.messages().len(), 5);
    let err = run.max_steps_error();
    assert!(matches!(err, Error::MaxStepsExceeded(2)));
    assert_eq!(err.to_string(), "max_steps (2) reached without a final assistant text");
}

#[test]
fn request_is_checked_in_order() {
    let mut p = params("  ", 0);
    assert!(matches!(plan_agent_run(&p), Err(Error::MissingUserMessage)));
    p.user_message = Some("hi".into());
    assert!(matches!(plan_agent_run(&p), Err(Error::MissingMaxSteps)));
    p.max_steps = None;
    assert!(matches!(plan_agent_run(&p), Err(Error::MissingMaxSteps)));
    p.max_steps = Some(1);
    p.skill_id = Some("demo".into());
    assert!(matches!(plan_agent_run(&p), Err(Error::MissingWorkspaceRootForSkill)));
    p.workspace_root = Some(" /w ".into());
    let setup = plan_agent_run(&p).unwrap();
    let req = setup.skill_request.unwrap();
    assert_eq!(req.workspace_root.as_deref(), Some("/w"));
    assert_eq!(req.skill_id.as_deref(), Some("demo"));
    assert_eq!(Error::MissingUserMessage.to_string(), "user_message is required");
    assert_eq!(Error::MissingMaxSteps.to_string(), "max_steps must be >= 1");
    assert_eq!(
        Error::MissingWorkspaceRootForSkill.to_string(),
        "skill_id set but workspace_root is missing"
    );
    assert_eq!(Error::Skills(SkillsError::MissingSkillId).to_string(), "skill_id is required");
    assert_eq!(Error::Llm(LlmError::EmptyChoices).to_string(), "empty choices in chat completion response");
    assert_eq!(Error::Tool(ToolError::Unknown("x".into())).to_string(), "unknown tool: x");
}

#[test]
fn skills_and_system_prompt_open_the_transcript() {
    let bundle = SkillBundle {
        skill_id: Some("demo".into()),
        root_path: None,
        files: vec![SkillFile { name: Some("SKILL.md".into()), content: Some("Be concise.\n".into()) }],
    };
    let mut p = params("hi", 2);
    p.system_prompt = Some("  Extra.  ".into());
    let setup = plan_agent_run(&p).unwrap();
    let run = AgentRun::start(&setup, Some(&bundle));
    let msgs = run.messages();
    assert_eq!(msgs.len(), 2);
    assert_eq!(msgs[0].role, Some(Role::System));
    let system = msgs[0].content.as_deref().unwrap();
    assert_eq!(system, "# Skill: demo\n\n## SKILL.md\nBe concise.\n\n\nExtra.");
    assert!(system.contains("# Skill: demo"));
    assert!(system.contains("Be concise."));
    assert_eq!(msgs[1].content.as_deref(), Some("hi"));
}

#[test]
fn skills_prompt_adds_missing_newline() {
    let bundle = SkillBundle {
        skill_id: None,
        root_path: None,
        files: vec![
            SkillFile { name: None, content: Some("x".into()) },
            SkillFile { name: Some("b.md".into()), content: None },
        ],
    };
    assert_eq!(format_skills_prompt(&bundle), "# Skill: unknown\n\n## unnamed.md\nx\n\n## b.md\n\n");
}

#[test]
fn skill_load_error_ends_the_turn() {
    let setup = plan_agent_run(&params("hi", 2)).unwrap();
    assert!(matches!(AgentRun::open(&setup, Err(SkillsError::MissingSkillId)), Err(Error::Skills(SkillsError::MissingSkillId))));
    let run = AgentRun::open(&setup, Ok(None)).ok().unwrap();
    assert_eq!(run.messages().len(), 1);
}
