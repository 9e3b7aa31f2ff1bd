use agent_kit::llm::{assistant_message, system_message, tool_message, AssistantTurn, LlmError};
use agent_kit::openai::{
    build_chat_request, check_reply_status, first_choice_turn, from_openai_message, reply_turn, to_openai_message,
    to_openai_tool, ReplyMessage, ReplyToolCall, WireFunction,
};
use agent_kit::wire::{Message, OpenAiCompatibleLlmConfig, Role, ToolCall, ToolSpec};

fn config(base: &str) -> OpenAiCompatibleLlmConfig {
    OpenAiCompatibleLlmConfig { base_url: Some(base.into()), api_key: Some(" key ".into()), model: Some("m1".into()) }
}

fn spec(name: &str, params: Option<&str>) -> ToolSpec {
    ToolSpec { name: Some(name.into()), description: Some("d".into()), parameters_json: params.map(|p| p.into()) }
}

#[test]
fn tool_parameters_must_be_json() {
    let def = to_openai_tool(&spec("echo", Some(r#"{"type":"object"}"#))).unwrap();
    assert_eq!(def.kind, "function");
    assert_eq!(def.function.name, "echo");
    assert_eq!(def.function.description, "d");
    assert_eq!(def.function.parameters_json, r#"{"type":"object"}"#);
    let empty = to_openai_tool(&spec("noargs", None)).unwrap();
    assert_eq!(empty.function.parameters_json, "{}");
    match to_openai_tool(&spec("bad", Some("{"))) {
        Err(LlmError::InvalidToolParameters(m)) => {
            assert!(!m.is_empty());
            assert_ne!(m, "{");
        },
        _ => panic!("expected InvalidToolParameters"),
    }
}

#[test]
fn request_framing() {
    let msgs = vec![system_message("s".into()), tool_message("c1".into(), "echo".into(), "out".into())];
    let req = build_chat_request(&config(" https://api.example/v1// "), &msgs, &vec![spec("echo", None)]).unwrap();
    assert_eq!(req.url, "https://api.example/v1/chat/completions");
    assert_eq!(req.api_key, "key");
    assert_eq!(req.model, "m1");
    assert_eq!(req.messages.len(), 2);
    assert_eq!(req.messages[0].role, "system");
    assert_eq!(req.messages[1].tool_call_id.as_deref(), Some("c1"));
    assert_eq!(req.tool_choice.as_deref(), Some("auto"));
    assert_eq!(req.tools.as_ref().unwrap().len(), 1);
    assert_eq!(req.tools.as_ref().unwrap()[0].function.parameters_json, "{}");
    let no_tools = build_chat_request(&config("https://x"), &msgs, &Vec::new()).unwrap();
    assert!(no_tools.tools.is_none());
    assert!(no_tools.tool_choice.is_none());
}

#[test]
fn request_refusals() {
    let msgs: Vec<Message> = Vec::new();
    let mut c = config("https://x");
    c.model = None;
    assert!(matches!(
        build_chat_request(&c, &msgs, &Vec::new()),
        Err(LlmError::InvalidConfig("model is required"))
    ));
    c.base_url = Some(" ".into());
    assert!(matches!(
        build_chat_request(&c, &msgs, &Vec::new()),
        Err(LlmError::InvalidConfig("base_url is required"))
    ));
    let mut c = config("https://x");
    c.api_key = None;
    assert!(matches!(
        build_chat_request(&c, &msgs, &Vec::new()),
        Err(LlmError::InvalidConfig("api_key is required"))
    ));
    let tools = vec![spec("ok", None), spec("bad", Some("[1,"))];
    assert!(matches!(
        build_chat_request(&config("https://x"), &msgs, &tools),
        Err(LlmError::InvalidToolParameters(_))
    ));
}

#[test]
fn assistant_message_framing() {
    let call = ToolCall { id: None, name: Some("echo".into()), arguments_json: None };
    let with_calls = assistant_message(&AssistantTurn { content: None, tool_calls: vec![call] });
    let w = to_openai_message(&with_calls);
    assert_eq!(w.role, "assistant");
    assert!(w.content.is_none());
    let calls = w.tool_calls.unwrap();
    assert_eq!(calls[0].id, "");
    assert_eq!(calls[0].kind, "function");
    assert_eq!(calls[0].function.arguments, "{}");
    let bare = assistant_message(&AssistantTurn { content: None, tool_calls: vec![] });
    let w = to_openai_message(&bare);
    assert_eq!(w.content.as_deref(), Some(""));
    assert!(w.tool_calls.is_none());
    let unspecified = Message { role: None, content: None, name: Some("n".into()), tool_call_id: None, tool_calls: vec![] };
    let w = to_openai_message(&unspecified);
    assert_eq!(w.role, "user");
    assert_eq!(w.content.as_deref(), Some(""));
    assert!(w.name.is_none());
}

#[test]
fn reply_status_decides() {
    assert_eq!(check_reply_status(200, "b".into()), Ok("b".to_string()));
    assert_eq!(check_reply_status(299, "b".into()), Ok("b".to_string()));
    assert_eq!(check_reply_status(503, "busy".into()), Err(LlmError::Api { status: 503, body: "busy".into() }));
    assert_eq!(check_reply_status(199, "x".into()), Err(LlmError::Api { status: 199, body: "x".into() }));
}

#[test]
fn reply_turns() {
    assert_eq!(first_choice_turn(Vec::new()), Err(LlmError::EmptyChoices));
    let reply = ReplyMessage {
        content: Some("   ".into()),
        tool_calls: Some(vec![ReplyToolCall {
            id: "c9".into(),
            function: WireFunction { name: "echo".into(), arguments: "{}".into() },
        }]),
    };
    let turn = first_choice_turn(vec![reply, ReplyMessage::default()]).unwrap();
    assert_eq!(turn.content, None);
    assert_eq!(turn.tool_calls.len(), 1);
    assert_eq!(turn.tool_calls[0].id.as_deref(), Some("c9"));
    assert_eq!(turn.tool_calls[0].name.as_deref(), Some("echo"));
    let text = from_openai_message(ReplyMessage { content: Some(" hi ".into()), tool_calls: None });
    assert_eq!(text.content.as_deref(), Some(" hi "));
    assert!(text.tool_calls.is_empty());
    let m = assistant_message(&text);
    assert_eq!(m.role, Some(Role::Assistant));
}

#[test]
fn reply_status_then_body_then_choices() {
    let ok = ReplyMessage { content: Some("hi".into()), tool_calls: None };
    assert_eq!(
        reply_turn(500, "oops".into(), Ok(vec![ok.clone()])),
        Err(LlmError::Api { status: 500, body: "oops".into() })
    );
    assert_eq!(
        reply_turn(200, "{".into(), Err("EOF".into())),
        Err(LlmError::InvalidResponse("EOF; body={".into()))
    );
    assert_eq!(reply_turn(200, "{}".into(), Ok(vec![])), Err(LlmError::EmptyChoices));
    assert_eq!(reply_turn(200, "{}".into(), Ok(vec![ok])).unwrap().content.as_deref(), Some("hi"));
}
