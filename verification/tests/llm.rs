use agent_kit::llm::{
    assistant_message, is_retriable_status, jittered, message_role, role_name, system_message, tool_message,
    user_message, validate_llm_config, validate_retry_policy, AssistantTurn, HttpFailure, LlmError, RetrySchedule,
    RetryingLlm,
};
use agent_kit::wire::{Message, OpenAiCompatibleLlmConfig, RetryPolicy, Role, ToolCall};

fn policy(max_attempts: u32, initial: u32, max_backoff: u32) -> RetryPolicy {
    RetryPolicy { max_attempts: Some(max_attempts), initial_backoff_ms: Some(initial), max_backoff_ms: Some(max_backoff) }
}

#[test]
fn retriable_classification() {
    assert!(LlmError::EmptyChoices.is_retriable());
    assert!(!LlmError::InvalidResponse("x".into()).is_retriable());
    assert!(!LlmError::InvalidConfig("x").is_retriable());
    assert!(LlmError::Api { status: 429, body: "slow".into() }.is_retriable());
    assert!(!LlmError::Api { status: 401, body: "nope".into() }.is_retriable());
}

#[test]
fn http_failures_are_classified() {
    let h = |timeout, connect, status| {
        LlmError::Http(HttpFailure { timeout, connect, status, message: "e".to_string() })
    };
    assert!(h(true, false, None).is_retriable());
    assert!(h(false, true, None).is_retriable());
    assert!(h(false, false, Some(503)).is_retriable());
    assert!(!h(false, false, Some(404)).is_retriable());
    assert!(!h(false, false, None).is_retriable());
    assert!(!LlmError::InvalidToolParameters("x".into()).is_retriable());
    for s in [408u16, 429, 500, 501, 502, 503, 504, 505, 599] {
        assert!(is_retriable_status(s));
    }
    for s in [200u16, 400, 401, 403, 404, 499, 600] {
        assert!(!is_retriable_status(s));
    }
}

#[test]
fn error_texts() {
    assert_eq!(LlmError::Api { status: 429, body: "slow".into() }.to_string(), "API 429: slow");
    assert_eq!(LlmError::InvalidConfig("model is required").to_string(), "llm config: model is required");
    assert_eq!(LlmError::EmptyChoices.to_string(), "empty choices in chat completion response");
    assert_eq!(LlmError::InvalidResponse("bad".into()).to_string(), "invalid response: bad");
    assert_eq!(
        LlmError::InvalidToolParameters("eof".into()).to_string(),
        "invalid tool parameters_json: eof"
    );
    let h = LlmError::Http(HttpFailure { timeout: false, connect: false, status: None, message: "boom".into() });
    assert_eq!(h.to_string(), "HTTP error: boom");
}

#[test]
fn retry_policy_is_validated() {
    assert!(validate_retry_policy(&policy(3, 10, 100)).is_ok());
    assert_eq!(
        validate_retry_policy(&policy(0, 10, 100)),
        Err(LlmError::InvalidConfig("retry max_attempts must be >= 1"))
    );
    let mut p = policy(1, 10, 0);
    assert_eq!(validate_retry_policy(&p), Err(LlmError::InvalidConfig("retry max_backoff_ms must be >= 1")));
    p.max_backoff_ms = None;
    assert!(validate_retry_policy(&p).is_err());
    assert!(RetryingLlm::new((), policy(0, 1, 1)).is_err());
    let r = RetryingLlm::new(7u8, policy(2, 1, 1)).unwrap();
    assert_eq!(*r.inner(), 7u8);
    assert_eq!(r.policy().max_attempts, Some(2));
}

#[test]
fn schedule_retries_then_gives_up() {
    let mut s = RetrySchedule::new(&policy(3, 100, 250));
    let busy = LlmError::Api { status: 503, body: "busy".into() };
    assert!(s.can_attempt());
    s.begin_attempt();
    assert_eq!(s.after_failure(&busy), Some(100));
    s.begin_attempt();
    assert_eq!(s.after_failure(&busy), Some(200));
    assert!(s.can_attempt());
    s.begin_attempt();
    assert_eq!(s.after_failure(&busy), None);
    assert!(!s.can_attempt());
}

#[test]
fn schedule_backoff_is_capped() {
    let mut s = RetrySchedule::new(&policy(5, 100, 250));
    let busy = LlmError::EmptyChoices;
    s.begin_attempt();
    assert_eq!(s.after_failure(&busy), Some(100));
    s.begin_attempt();
    assert_eq!(s.after_failure(&busy), Some(200));
    s.begin_attempt();
    assert_eq!(s.after_failure(&busy), Some(250));
    s.begin_attempt();
    assert_eq!(s.after_failure(&busy), Some(250));
}

#[test]
fn schedule_does_not_retry_non_retriable() {
    let mut s = RetrySchedule::new(&policy(3, 100, 1000));
    s.begin_attempt();
    assert_eq!(s.after_failure(&LlmError::Api { status: 401, body: "auth".into() }), None);
    assert!(s.can_attempt());
}

#[test]
fn jitter_stays_within_half_and_full() {
    assert_eq!(jittered(0, 12345), 0);
    assert_eq!(jittered(1, 12345), 1);
    assert_eq!(jittered(100, 0), 50);
    assert_eq!(jittered(100, 50), 100);
    assert_eq!(jittered(100, 51), 50);
    assert_eq!(jittered(101, 7), 58);
    assert_eq!(jittered(3, 0), 2);
    assert_eq!(jittered(3, 1), 3);
    for e in 0..500u64 {
        let d = jittered(1000, e * 7919);
        assert!((500..=1000).contains(&d));
    }
}

#[test]
fn llm_config_is_validated() {
    let cfg = |b: &str, k: &str, m: &str| OpenAiCompatibleLlmConfig {
        base_url: Some(b.to_string()),
        api_key: Some(k.to_string()),
        model: Some(m.to_string()),
    };
    assert!(validate_llm_config(&cfg("https://x", "k", "m")).is_ok());
    assert_eq!(validate_llm_config(&cfg(" ", "k", "m")), Err(LlmError::InvalidConfig("base_url is required")));
    assert_eq!(validate_llm_config(&cfg("u", "", "m")), Err(LlmError::InvalidConfig("api_key is required")));
    assert_eq!(validate_llm_config(&cfg("u", "k", "\t")), Err(LlmError::InvalidConfig("model is required")));
}

#[test]
fn message_constructors() {
    let s = system_message("sys".to_string());
    assert_eq!(s.role, Some(Role::System));
    assert_eq!(s.content.as_deref(), Some("sys"));
    let u = user_message("hi".to_string());
    assert_eq!(u.role, Some(Role::User));
    let turn = AssistantTurn {
        content: None,
        tool_calls: vec![ToolCall { id: Some("c1".into()), name: Some("echo".into()), arguments_json: None }],
    };
    let a = assistant_message(&turn);
    assert_eq!(a.role, Some(Role::Assistant));
    assert_eq!(a.content, None);
    assert_eq!(a.tool_calls, turn.tool_calls);
    let t = tool_message("c1".into(), "echo".into(), "out".into());
    assert_eq!(t.role, Some(Role::Tool));
    assert_eq!(t.tool_call_id.as_deref(), Some("c1"));
    assert_eq!(t.name.as_deref(), Some("echo"));
    assert_eq!(t.content.as_deref(), Some("out"));
}

#[test]
fn roles_and_names() {
    let m = Message { role: None, content: None, name: None, tool_call_id: None, tool_calls: vec![] };
    assert_eq!(message_role(&m), Role::Unspecified);
    assert_eq!(role_name(Role::System), "system");
    assert_eq!(role_name(Role::User), "user");
    assert_eq!(role_name(Role::Assistant), "assistant");
    assert_eq!(role_name(Role::Tool), "tool");
    assert_eq!(role_name(Role::Unspecified), "user");
}
