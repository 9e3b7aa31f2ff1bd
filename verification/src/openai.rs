//! OpenAI chat-completions framing: the request that a completion sends and
//! the assistant turn that a reply yields. Bytes on the wire are produced and
//! read by the HTTP client; this module decides what goes into them.
use vstd::prelude::*;

use crate::llm::{
    llm_config_error, message_role, role_name, spec_message_role, spec_role_name, AssistantTurn,
    LlmError,
};
use crate::text::{nonblank, nonblank_str, opt_or, opt_str, trimmed};
use crate::wire::{copy_opt, Message, OpenAiCompatibleLlmConfig, Role, ToolCall, ToolSpec};

verus! {

/// What `serde_json::from_str::<serde_json::Value>` says of `text`: `None`
/// when it is one JSON document, else the error's text.
pub uninterp spec fn json_error(text: Seq<char>) -> Option<Seq<char>>;

pub open spec fn json_text_parses(text: Seq<char>) -> bool {
    json_error(text) is None
}

/// Whether `serde_json::from_str::<serde_json::Value>` accepts `text`; its
/// error rendered as text when it does not.
#[verifier::external_body]
fn check_json(text: &str) -> (r: Result<(), String>)
    ensures
        r is Ok <==> json_error(text@) is None,
        r matches Err(m) ==> json_error(text@) == Some(m@),
{
    serde_json::from_str::<serde_json::Value>(text).map(|_| ()).map_err(|e| e.to_string())
}

/// A function call inside an assistant message.
#[derive(Clone, Debug, PartialEq)]
pub struct WireFunction {
    pub name: String,
    pub arguments: String,
}

/// A tool call as the chat-completions API writes it (`type` is always `function`).
#[derive(Clone, Debug, PartialEq)]
pub struct WireToolCall {
    pub id: String,
    pub kind: String,
    pub function: WireFunction,
}

/// One chat message of a request; absent fields are left out of the JSON object.
#[derive(Clone, Debug, PartialEq)]
pub struct ChatMessage {
    pub role: String,
    pub content: Option<String>,
    pub tool_call_id: Option<String>,
    pub name: Option<String>,
    pub tool_calls: Option<Vec<WireToolCall>>,
}

/// One tool that the request offers the model; `parameters_json` is the
/// JSON schema of its arguments, checked to be one JSON document.
pub struct FunctionDefinition {
    pub name: String,
    pub description: String,
    pub parameters_json: String,
}

pub struct ToolDefinition {
    pub kind: String,
    pub function: FunctionDefinition,
}

/// Everything a completion request carries.
pub struct ChatRequest {
    /// `{base_url without trailing '/'}/chat/completions`
    pub url: String,
    pub api_key: String,
    pub model: String,
    pub messages: Vec<ChatMessage>,
    /// Present (with `tool_choice` = `auto`) only when tools are offered.
    pub tools: Option<Vec<ToolDefinition>>,
    pub tool_choice: Option<String>,
}

/// A tool call as a reply carries it.
#[derive(Clone, Debug, PartialEq)]
pub struct ReplyToolCall {
    pub id: String,
    pub function: WireFunction,
}

/// The message of a reply's first choice.
#[derive(Clone, Debug, PartialEq, Default)]
pub struct ReplyMessage {
    pub content: Option<String>,
    pub tool_calls: Option<Vec<ReplyToolCall>>,
}

pub open spec fn spec_wire_tool_call(w: WireToolCall, c: ToolCall) -> bool {
    &&& w.id@ == opt_or(c.id, ""@)
    &&& w.kind@ == "function"@
    &&& w.function.name@ == opt_or(c.name, ""@)
    &&& w.function.arguments@ == opt_or(c.arguments_json, "{}"@)
}

/// How a message is framed for the API: `tool` messages carry their call id and
/// name when set and always a content; `assistant` messages carry their content,
/// or an empty one when they have neither content nor tool calls, and their tool
/// calls when there are any; other messages carry their content or an empty one.
pub open spec fn spec_chat_message(w: ChatMessage, m: Message) -> bool {
    let role = spec_role_name(spec_message_role(m));
    &&& w.role@ == role
    &&& if role == "tool"@ {
        &&& w.tool_call_id == m.tool_call_id
        &&& w.name == m.name
        &&& w.content matches Some(c) && c@ == opt_or(m.content, ""@)
        &&& w.tool_calls is None
    } else if role == "assistant"@ {
        &&& w.tool_call_id is None
        &&& w.name is None
        &&& (if m.content is Some {
            w.content == m.content
        } else if m.tool_calls@.len() == 0 {
            w.content matches Some(c) && c@ == ""@
        } else {
            w.content is None
        })
        &&& (if m.tool_calls@.len() == 0 {
            w.tool_calls is None
        } else {
            w.tool_calls matches Some(calls) && calls@.len() == m.tool_calls@.len() && forall|i: int|
                0 <= i < calls@.len() ==> spec_wire_tool_call(#[trigger] calls@[i], m.tool_calls@[i])
        })
    } else {
        &&& w.tool_call_id is None
        &&& w.name is None
        &&& w.content matches Some(c) && c@ == opt_or(m.content, ""@)
        &&& w.tool_calls is None
    }
}

proof fn lemma_role_names_distinct()
    ensures
        "tool"@ != "user"@,
        "tool"@ != "system"@,
        "tool"@ != "assistant"@,
        "assistant"@ != "user"@,
        "assistant"@ != "system"@,
        ""@ == Seq::<char>::empty(),
{
    reveal_strlit("");
    reveal_strlit("tool");
    reveal_strlit("assistant");
    reveal_strlit("user");
    reveal_strlit("system");
    assert("tool"@[0] != "user"@[0]);
    assert("tool"@[0] != "system"@[0]);
    assert("tool"@[0] != "assistant"@[0]);
    assert("assistant"@[0] != "user"@[0]);
    assert("assistant"@[0] != "system"@[0]);
}

/// Whatever its role, a message that has a text is sent with exactly that
/// text; one without a text is sent with an empty one unless it is an
/// assistant message (which carries its tool calls instead, or an empty text
/// when it has none). System, user and role-less messages go out under `system`
/// or `user` with their own text and nothing else; a tool message keeps its
/// call id; an assistant message's tool calls go out one for one, in order,
/// with their ids, names and arguments.
pub proof fn lemma_framed_content(w: ChatMessage, m: Message)
    requires
        spec_chat_message(w, m),
    ensures
        m.content matches Some(t) ==> (w.content matches Some(c) && c@ == t@),
        m.content is None && spec_message_role(m) != Role::Assistant ==> (w.content matches Some(c) && c@ == ""@),
        spec_message_role(m) == Role::System ==> w.role@ == "system"@,
        spec_message_role(m) == Role::User || spec_message_role(m) == Role::Unspecified ==> w.role@ == "user"@,
        spec_message_role(m) != Role::Assistant ==> w.tool_calls is None,
        spec_message_role(m) == Role::Tool ==> w.role@ == "tool"@ && w.tool_call_id == m.tool_call_id,
        spec_message_role(m) == Role::Assistant && m.tool_calls@.len() > 0 ==> (w.tool_calls matches Some(calls)
            && calls@.len() == m.tool_calls@.len() && forall|i: int|
            0 <= i < calls@.len() ==> (#[trigger] calls@[i]).id@ == opt_or(m.tool_calls@[i].id, ""@)
                && calls@[i].function.name@ == opt_or(m.tool_calls@[i].name, ""@)
                && calls@[i].function.arguments@ == opt_or(m.tool_calls@[i].arguments_json, "{}"@)),
{
    lemma_role_names_distinct();
    if m.content is Some {
        assert(opt_or(m.content, ""@) == m.content->0@);
    }
}

fn to_wire_tool_call(c: &ToolCall) -> (r: WireToolCall)
    ensures
        spec_wire_tool_call(r, *c),
{
    WireToolCall {
        id: String::from_str(opt_str(&c.id, "")),
        kind: String::from_str("function"),
        function: WireFunction {
            name: String::from_str(opt_str(&c.name, "")),
            arguments: String::from_str(opt_str(&c.arguments_json, "{}")),
        },
    }
}

pub fn to_openai_message(msg: &Message) -> (r: ChatMessage)
    ensures
        spec_chat_message(r, *msg),
        r.role@ == spec_role_name(spec_message_role(*msg)),
        msg.content matches Some(t) ==> (r.content matches Some(c) && c@ == t@),
        msg.content is None && spec_message_role(*msg) != Role::Assistant ==> (r.content matches Some(c) && c@
            == ""@),
{
    let role = message_role(msg);
    let name = role_name(role);
    proof {
        lemma_role_names_distinct();
    }
    match role {
        Role::Tool => ChatMessage {
            role: String::from_str(name),
            content: Some(String::from_str(opt_str(&msg.content, ""))),
            tool_call_id: copy_opt(&msg.tool_call_id),
            name: copy_opt(&msg.name),
            tool_calls: None,
        },
        Role::Assistant => {
            let content = match &msg.content {
                Some(c) => Some(c.clone()),
                None => if msg.tool_calls.len() == 0 {
                    Some(String::new())
                } else {
                    None
                },
            };
            let tool_calls = if msg.tool_calls.len() == 0 {
                None
            } else {
                let mut calls: Vec<WireToolCall> = Vec::new();
                let n = msg.tool_calls.len();
                let mut i: usize = 0;
                while i < n
                    invariant
                        n == msg.tool_calls@.len(),
                        i <= n,
                        calls@.len() == i,
                        forall|j: int| 0 <= j < i ==> spec_wire_tool_call(#[trigger] calls@[j], msg.tool_calls@[j]),
                    decreases n - i,
                {
                    calls.push(to_wire_tool_call(&msg.tool_calls[i]));
                    i += 1;
                }
                Some(calls)
            };
            ChatMessage { role: String::from_str(name), content, tool_call_id: None, name: None, tool_calls }
        },
        _ => {
            ChatMessage {
            role: String::from_str(name),
            content: Some(String::from_str(opt_str(&msg.content, ""))),
            tool_call_id: None,
            name: None,
            tool_calls: None,
        }},
    }
}

/// Frame a tool spec; its `parameters_json` (`{}` when absent) must be one JSON document.
pub fn to_openai_tool(spec: &ToolSpec) -> (r: Result<ToolDefinition, LlmError>)
    ensures
        r is Ok <==> json_text_parses(opt_or(spec.parameters_json, "{}"@)),
        r matches Err(e) ==> (e matches LlmError::InvalidToolParameters(m) && json_error(
            opt_or(spec.parameters_json, "{}"@),
        ) == Some(m@)),
        r matches Ok(d) ==> d.kind@ == "function"@ && d.function.name@ == opt_or(spec.name, ""@)
            && d.function.description@ == opt_or(spec.description, ""@) && d.function.parameters_json@ == opt_or(
            spec.parameters_json,
            "{}"@,
        ),
{
    let name = opt_str(&spec.name, "");
    let description = opt_str(&spec.description, "");
    let parameters_json = opt_str(&spec.parameters_json, "{}");
    match check_json(parameters_json) {
        Ok(()) => Ok(
            ToolDefinition {
                kind: String::from_str("function"),
                function: FunctionDefinition {
                    name: String::from_str(name),
                    description: String::from_str(description),
                    parameters_json: String::from_str(parameters_json),
                },
            },
        ),
        Err(message) => Err(LlmError::InvalidToolParameters(message)),
    }
}

/// `s` without its trailing `c` characters.
pub open spec fn trim_end_char(s: Seq<char>, c: char) -> Seq<char>
    decreases s.len(),
{
    if s.len() > 0 && s.last() == c {
        trim_end_char(s.drop_last(), c)
    } else {
        s
    }
}

fn trim_trailing_slashes(s: &str) -> (r: &str)
    ensures
        r@ == trim_end_char(s@, '/'),
{
    let mut k = s.unicode_len();
    assert(s@.subrange(0, k as int) =~= s@);
    while k > 0 && s.get_char(k - 1) == '/'
        invariant
            k <= s@.len(),
            trim_end_char(s@, '/') == trim_end_char(s@.subrange(0, k as int), '/'),
        decreases k,
    {
        assert(s@.subrange(0, k as int).drop_last() =~= s@.subrange(0, k - 1));
        k = k - 1;
    }
    assert(s@.subrange(0, 0).len() == 0);
    s.substring_char(0, k)
}

pub open spec fn spec_chat_url(config: OpenAiCompatibleLlmConfig) -> Seq<char> {
    trim_end_char(nonblank(config.base_url)->0, '/') + "/chat/completions"@
}

/// The request for one completion over `messages`, offering `tools`.
/// Refused when the base URL, model or API key is blank (in that order), or when
/// a tool's parameters are not JSON.
pub fn build_chat_request(
    config: &OpenAiCompatibleLlmConfig,
    messages: &Vec<Message>,
    tools: &Vec<ToolSpec>,
) -> (r: Result<ChatRequest, LlmError>)
    ensures
        nonblank(config.base_url) is None ==> r == Err::<ChatRequest, LlmError>(
            LlmError::InvalidConfig("base_url is required"),
        ),
        nonblank(config.base_url) is Some && nonblank(config.model) is None ==> r == Err::<
            ChatRequest,
            LlmError,
        >(LlmError::InvalidConfig("model is required")),
        nonblank(config.base_url) is Some && nonblank(config.model) is Some && nonblank(config.api_key) is None
            ==> r == Err::<ChatRequest, LlmError>(LlmError::InvalidConfig("api_key is required")),
        llm_config_error(*config) is None ==> (r is Ok <==> forall|i: int|
            0 <= i < tools@.len() ==> json_text_parses(opt_or(#[trigger] tools@[i].parameters_json, "{}"@))),
        llm_config_error(*config) is None ==> (r matches Err(e) ==> (e matches LlmError::InvalidToolParameters(m)
            && exists|i: int|
            0 <= i < tools@.len() && (forall|k: int|
                0 <= k < i ==> json_text_parses(opt_or(#[trigger] tools@[k].parameters_json, "{}"@))) && json_error(
                opt_or(#[trigger] tools@[i].parameters_json, "{}"@),
            ) == Some(m@))),
        r matches Ok(req) ==> {
            &&& req.url@ == spec_chat_url(*config)
            &&& req.model@ == nonblank(config.model)->0
            &&& req.api_key@ == nonblank(config.api_key)->0
            &&& req.messages@.len() == messages@.len()
            &&& forall|i: int| 0 <= i < messages@.len() ==> spec_chat_message(#[trigger] req.messages@[i], messages@[i])
            &&& (tools@.len() == 0 ==> req.tools is None && req.tool_choice is None)
            &&& (tools@.len() > 0 ==> (req.tools matches Some(t) && t@.len() == tools@.len() && forall|i: int|
                0 <= i < t@.len() ==> (#[trigger] t@[i]).kind@ == "function"@ && t@[i].function.name@ == opt_or(
                tools@[i].name,
                ""@,
            ) && t@[i].function.description@ == opt_or(tools@[i].description, ""@)
                && t@[i].function.parameters_json@ == opt_or(tools@[i].parameters_json, "{}"@)))
            &&& (tools@.len() > 0 ==> (req.tool_choice matches Some(c) && c@ == "auto"@))
        },
{
    let base = match nonblank_str(&config.base_url) {
        Some(b) => trim_trailing_slashes(b),
        None => {
            return Err(LlmError::InvalidConfig("base_url is required"));
        },
    };
    let mut url = String::from_str(base);
    url.append("/chat/completions");
    let model = match nonblank_str(&config.model) {
        Some(m) => m,
        None => {
            return Err(LlmError::InvalidConfig("model is required"));
        },
    };
    let api_key = match nonblank_str(&config.api_key) {
        Some(k) => k,
        None => {
            return Err(LlmError::InvalidConfig("api_key is required"));
        },
    };
    let mut wire_messages: Vec<ChatMessage> = Vec::new();
    let n = messages.len();
    let mut i: usize = 0;
    while i < n
        invariant
            n == messages@.len(),
            i <= n,
            wire_messages@.len() == i,
            forall|j: int| 0 <= j < i ==> spec_chat_message(#[trigger] wire_messages@[j], messages@[j]),
        decreases n - i,
    {
        wire_messages.push(to_openai_message(&messages[i]));
        i += 1;
    }
    let mut tool_defs: Option<Vec<ToolDefinition>> = None;
    let mut tool_choice: Option<String> = None;
    if tools.len() > 0 {
        let mut defs: Vec<ToolDefinition> = Vec::new();
        let m = tools.len();
        let mut j: usize = 0;
        while j < m
            invariant
                m == tools@.len(),
                j <= m,
                nonblank(config.base_url) is Some,
                nonblank(config.model) is Some,
                nonblank(config.api_key) is Some,
                defs@.len() == j,
                forall|k: int| 0 <= k < j ==> json_text_parses(opt_or(#[trigger] tools@[k].parameters_json, "{}"@)),
                forall|k: int|
                    0 <= k < j ==> (#[trigger] defs@[k]).kind@ == "function"@ && defs@[k].function.name@ == opt_or(
                        tools@[k].name,
                        ""@,
                    ) && defs@[k].function.description@ == opt_or(tools@[k].description, ""@)
                        && defs@[k].function.parameters_json@ == opt_or(tools@[k].parameters_json, "{}"@),
            decreases m - j,
        {
            match to_openai_tool(&tools[j]) {
                Ok(d) => defs.push(d),
                Err(e) => {
                    assert(json_error(opt_or(tools@[j as int].parameters_json, "{}"@)) is Some);
                    return Err(e);
                },
            }
            j += 1;
        }
        tool_defs = Some(defs);
        tool_choice = Some(String::from_str("auto"));
    }
    Ok(
        ChatRequest {
            url,
            api_key: String::from_str(api_key),
            model: String::from_str(model),
            messages: wire_messages,
            tools: tool_defs,
            tool_choice,
        },
    )
}

/// The HTTP status of a reply decides whether its body is read: any status
/// outside 200..=299 is an `Api` error carrying the body.
pub fn check_reply_status(status: u16, body: String) -> (r: Result<String, LlmError>)
    ensures
        200 <= status <= 299 ==> r == Ok::<String, LlmError>(body),
        !(200 <= status <= 299) ==> r == Err::<String, LlmError>(LlmError::Api { status, body }),
{
    if 200 <= status && status <= 299 {
        Ok(body)
    } else {
        Err(LlmError::Api { status, body })
    }
}

/// A reply body that could not be read: the parser's message, then the body.
pub fn invalid_response(detail: &str, body: &str) -> (r: LlmError)
    ensures
        r matches LlmError::InvalidResponse(m) && m@ == detail@ + "; body="@ + body@,
{
    let mut m = String::from_str(detail);
    m.append("; body=");
    m.append(body);
    LlmError::InvalidResponse(m)
}

/// The assistant turn of a reply message: its tool calls in order, and its
/// content unless that is blank.
pub open spec fn spec_turn_from_reply(t: AssistantTurn, msg: ReplyMessage) -> bool {
    &&& (match msg.content {
        Some(c) => if trimmed(c@).len() == 0 {
            t.content is None
        } else {
            t.content == Some(c)
        },
        None => t.content is None,
    })
    &&& (match msg.tool_calls {
        Some(calls) => t.tool_calls@.len() == calls@.len() && forall|i: int|
            0 <= i < calls@.len() ==> {
                let tc = #[trigger] t.tool_calls@[i];
                &&& tc.id == Some(calls@[i].id)
                &&& tc.name == Some(calls@[i].function.name)
                &&& tc.arguments_json == Some(calls@[i].function.arguments)
            },
        None => t.tool_calls@.len() == 0,
    })
}

pub fn from_openai_message(msg: ReplyMessage) -> (r: AssistantTurn)
    ensures
        spec_turn_from_reply(r, msg),
{
    let ghost given = msg;
    let mut tool_calls: Vec<ToolCall> = Vec::new();
    match msg.tool_calls {
        Some(calls) => {
            let n = calls.len();
            let mut i: usize = 0;
            while i < n
                invariant
                    n == calls@.len(),
                    i <= n,
                    given.tool_calls == Some(calls),
                    tool_calls@.len() == i,
                    forall|j: int|
                        0 <= j < i ==> {
                            let tc = #[trigger] tool_calls@[j];
                            &&& tc.id == Some(calls@[j].id)
                            &&& tc.name == Some(calls@[j].function.name)
                            &&& tc.arguments_json == Some(calls@[j].function.arguments)
                        },
                decreases n - i,
            {
                let c = &calls[i];
                tool_calls.push(
                    ToolCall {
                        id: Some(c.id.clone()),
                        name: Some(c.function.name.clone()),
                        arguments_json: Some(c.function.arguments.clone()),
                    },
                );
                i += 1;
            }
        },
        None => {},
    }
    let content = match msg.content {
        Some(c) => {
            if c.as_str().trim().is_empty() {
                None
            } else {
                Some(c)
            }
        },
        None => None,
    };
    AssistantTurn { content, tool_calls }
}

/// The turn of a reply: its first choice, or `EmptyChoices` when it has none.
pub fn first_choice_turn(choices: Vec<ReplyMessage>) -> (r: Result<AssistantTurn, LlmError>)
    ensures
        choices@.len() == 0 ==> r == Err::<AssistantTurn, LlmError>(LlmError::EmptyChoices),
        choices@.len() > 0 ==> (r matches Ok(t) && spec_turn_from_reply(t, choices@[0])),
{
    let mut choices = choices;
    if choices.len() == 0 {
        return Err(LlmError::EmptyChoices);
    }
    let first = choices.remove(0);
    Ok(from_openai_message(first))
}

/// The turn that a completion reply gives: an `Api` error for a status
/// outside 200..=299; else `InvalidResponse` when the body could not be read
/// (`parsed` is the reader's error text); else its first choice's turn, or
/// `EmptyChoices`.
pub fn reply_turn(status: u16, body: String, parsed: Result<Vec<ReplyMessage>, String>) -> (r: Result<
    AssistantTurn,
    LlmError,
>)
    ensures
        !(200 <= status <= 299) ==> r == Err::<AssistantTurn, LlmError>(LlmError::Api { status, body }),
        200 <= status <= 299 ==> match parsed {
            Err(m) => r matches Err(LlmError::InvalidResponse(t)) && t@ == m@ + "; body="@ + body@,
            Ok(choices) => {
                &&& choices@.len() == 0 ==> r == Err::<AssistantTurn, LlmError>(LlmError::EmptyChoices)
                &&& choices@.len() > 0 ==> (r matches Ok(t) && spec_turn_from_reply(t, choices@[0]))
            },
        },
{
    let text = check_reply_status(status, body)?;
    match parsed {
        Err(m) => Err(invalid_response(m.as_str(), text.as_str())),
        Ok(choices) => first_choice_turn(choices),
    }
}

} // verus!
