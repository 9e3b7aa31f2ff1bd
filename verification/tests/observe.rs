use agent_kit::observe::{StderrObserver, Truncated};
use agent_kit::wire::{AgentLlmStep, AgentToolCall, AgentToolResult};

#[test]
fn truncates_long_payloads() {
    let obs = StderrObserver::new(5);
    let t = obs.trunc("abcdefghij");
    assert_eq!(t.to_string(), "abcde…(+5 chars)");
}

#[test]
fn leaves_short_payloads() {
    let obs = StderrObserver::new(5);
    assert_eq!(obs.trunc("hi").to_string(), "hi");
}

#[test]
fn payload_of_exactly_the_limit_is_kept() {
    let t = Truncated { text: "abcde", max: 5 };
    assert_eq!(t.to_string(), "abcde");
}

#[test]
fn truncation_counts_characters_not_bytes() {
    let t = Truncated { text: "ééééé-x", max: 3 };
    assert_eq!(t.to_string(), "ééé…(+4 chars)");
}

#[test]
fn default_observer_limit_is_512() {
    let obs = StderrObserver::default();
    let long = "x".repeat(600);
    let shown = obs.trunc(&long).to_string();
    assert_eq!(shown, format!("{}…(+88 chars)", "x".repeat(512)));
}

#[test]
fn llm_step_line_format() {
    let obs = StderrObserver::new(4);
    let ev = AgentLlmStep { step: Some(2), tool_call_count: Some(0), content: Some("hello".to_string()) };
    assert_eq!(obs.llm_step_line(&ev), "[agent] step=2 llm tool_calls=0 content=hell…(+1 chars)");
    let ev = AgentLlmStep { step: Some(1), tool_call_count: Some(3), content: Some(String::new()) };
    assert_eq!(obs.llm_step_line(&ev), "[agent] step=1 llm tool_calls=3");
}

#[test]
fn tool_call_and_result_lines_format() {
    let obs = StderrObserver::new(100);
    let call = AgentToolCall {
        step: Some(1),
        tool_call_id: Some("call_1".to_string()),
        tool_name: Some("echo".to_string()),
        arguments_json: Some("{\"text\":\"hi\"}".to_string()),
    };
    assert_eq!(obs.tool_call_line(&call), "[agent] step=1 tool_call name=echo id=call_1 args={\"text\":\"hi\"}");
    let res = AgentToolResult {
        step: Some(1),
        tool_call_id: Some("call_1".to_string()),
        tool_name: Some("echo".to_string()),
        ok: Some(false),
        output: Some("boom".to_string()),
    };
    assert_eq!(obs.tool_result_line(&res), "[agent] step=1 tool_result name=echo id=call_1 err output=boom");
}
