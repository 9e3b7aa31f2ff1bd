//! Chat-completion model of the agent: assistant turns, LLM errors and their
//! retry classification, the retry schedule, and the message constructors.
use vstd::prelude::*;

use crate::text::{decimal_spec, decimal_text, nonblank, nonblank_str};
use crate::wire::{copy_opt, copy_tool_calls, Message, OpenAiCompatibleLlmConfig, RetryPolicy, Role, ToolCall};

verus! {

/// One assistant completion: text and/or tool calls.
#[derive(Clone, Debug, Default, PartialEq)]
pub struct AssistantTurn {
    pub content: Option<String>,
    pub tool_calls: Vec<ToolCall>,
}

/// What the agent reads of a failed HTTP exchange.
#[derive(Clone, Debug, PartialEq)]
pub struct HttpFailure {
    /// The request timed out.
    pub timeout: bool,
    /// The connection could not be made.
    pub connect: bool,
    /// The HTTP status, when the failure carries one.
    pub status: Option<u16>,
    /// The error's own text.
    pub message: String,
}

/// Errors from an LLM client.
#[derive(Clone, Debug, PartialEq)]
pub enum LlmError {
    InvalidConfig(&'static str),
    Http(HttpFailure),
    Api { status: u16, body: String },
    EmptyChoices,
    InvalidResponse(String),
    InvalidToolParameters(String),
}

/// Statuses worth retrying: 408, 429 and every 5xx.
pub open spec fn retriable_status(status: u16) -> bool {
    status == 408 || status == 429 || (500 <= status && status <= 599)
}

pub fn is_retriable_status(status: u16) -> (r: bool)
    ensures
        r == retriable_status(status),
{
    status == 408 || status == 429 || (500 <= status && status <= 599)
}

/// Timeouts, connect failures, 408/429/5xx and empty choices may be retried;
/// configuration, parse and tool-parameter errors may not.
pub open spec fn retriable(e: LlmError) -> bool {
    match e {
        LlmError::InvalidConfig(_) => false,
        LlmError::InvalidToolParameters(_) => false,
        LlmError::InvalidResponse(_) => false,
        LlmError::Http(h) => h.timeout || h.connect || (h.status matches Some(s) && retriable_status(s)),
        LlmError::Api { status, .. } => retriable_status(status),
        LlmError::EmptyChoices => true,
    }
}

pub open spec fn llm_error_text(e: LlmError) -> Seq<char> {
    match e {
        LlmError::InvalidConfig(m) => "llm config: "@ + m@,
        LlmError::Http(h) => "HTTP error: "@ + h.message@,
        LlmError::Api { status, body } => "API "@ + decimal_spec(status as int) + ": "@ + body@,
        LlmError::EmptyChoices => "empty choices in chat completion response"@,
        LlmError::InvalidResponse(m) => "invalid response: "@ + m@,
        LlmError::InvalidToolParameters(m) => "invalid tool parameters_json: "@ + m@,
    }
}

impl LlmError {
    /// Whether a caller may safely retry the same completion request.
    pub fn is_retriable(&self) -> (r: bool)
        ensures
            r == retriable(*self),
    {
        match self {
            LlmError::InvalidConfig(_) | LlmError::InvalidToolParameters(_) | LlmError::InvalidResponse(_) => {
                false
            },
            LlmError::Http(h) => {
                if h.timeout || h.connect {
                    return true;
                }
                match h.status {
                    Some(s) => is_retriable_status(s),
                    None => false,
                }
            },
            LlmError::Api { status, .. } => is_retriable_status(*status),
            LlmError::EmptyChoices => true,
        }
    }

    /// The error as text.
    pub fn to_string(&self) -> (r: String)
        ensures
            r@ == llm_error_text(*self),
    {
        match self {
            LlmError::InvalidConfig(m) => {
                let mut out = String::from_str("llm config: ");
                out.append(m);
                out
            },
            LlmError::Http(h) => {
                let mut out = String::from_str("HTTP error: ");
                out.append(h.message.as_str());
                out
            },
            LlmError::Api { status, body } => {
                let mut out = String::from_str("API ");
                let code = decimal_text(*status as i128);
                out.append(code.as_str());
                out.append(": ");
                out.append(body.as_str());
                out
            },
            LlmError::EmptyChoices => String::from_str("empty choices in chat completion response"),
            LlmError::InvalidResponse(m) => {
                let mut out = String::from_str("invalid response: ");
                out.append(m.as_str());
                out
            },
            LlmError::InvalidToolParameters(m) => {
                let mut out = String::from_str("invalid tool parameters_json: ");
                out.append(m.as_str());
                out
            },
        }
    }
}

pub open spec fn opt_u32_or(o: Option<u32>, d: u32) -> u32 {
    match o {
        Some(v) => v,
        None => d,
    }
}

/// The error that a retry policy is refused with, if any.
pub open spec fn retry_policy_error(policy: RetryPolicy) -> Option<LlmError> {
    if opt_u32_or(policy.max_attempts, 0) < 1 {
        Some(LlmError::InvalidConfig("retry max_attempts must be >= 1"))
    } else if opt_u32_or(policy.max_backoff_ms, 0) < 1 {
        Some(LlmError::InvalidConfig("retry max_backoff_ms must be >= 1"))
    } else {
        None
    }
}

pub fn validate_retry_policy(policy: &RetryPolicy) -> (r: Result<(), LlmError>)
    ensures
        r is Err <==> retry_policy_error(*policy) is Some,
        r matches Err(e) ==> Some(e) == retry_policy_error(*policy),
{
    let max_attempts = policy.max_attempts.unwrap_or(0);
    if max_attempts < 1 {
        return Err(LlmError::InvalidConfig("retry max_attempts must be >= 1"));
    }
    if policy.max_backoff_ms.unwrap_or(0) < 1 {
        return Err(LlmError::InvalidConfig("retry max_backoff_ms must be >= 1"));
    }
    Ok(())
}

/// Wraps an LLM client and retries retriable failures per a [`RetryPolicy`].
pub struct RetryingLlm<L> {
    inner: L,
    policy: RetryPolicy,
}

impl<L> RetryingLlm<L> {
    pub closed spec fn spec_inner(&self) -> L {
        self.inner
    }

    pub closed spec fn spec_policy(&self) -> RetryPolicy {
        self.policy
    }

    pub fn new(inner: L, policy: RetryPolicy) -> (r: Result<Self, LlmError>)
        ensures
            r is Err <==> retry_policy_error(policy) is Some,
            r matches Err(e) ==> Some(e) == retry_policy_error(policy),
            r matches Ok(l) ==> l.spec_inner() == inner && l.spec_policy() == policy,
    {
        match validate_retry_policy(&policy) {
            Ok(()) => Ok(RetryingLlm { inner, policy }),
            Err(e) => Err(e),
        }
    }

    /// The wrapped client.
    pub fn inner(&self) -> (r: &L)
        ensures
            *r == self.spec_inner(),
    {
        &self.inner
    }

    /// The retry policy.
    pub fn policy(&self) -> (r: &RetryPolicy)
        ensures
            *r == self.spec_policy(),
    {
        &self.policy
    }

    /// A fresh schedule for one completion request.
    pub fn schedule(&self) -> (r: RetrySchedule)
        ensures
            r.attempts() == 0,
            r.max_attempts() == spec_max_attempts(self.spec_policy()),
            r.backoff_ms() == opt_u32_or(self.spec_policy().initial_backoff_ms, 0),
            r.max_backoff_ms() == spec_max_backoff(self.spec_policy()),
    {
        RetrySchedule::new(&self.policy)
    }
}

pub open spec fn spec_max_attempts(p: RetryPolicy) -> u32 {
    let m = opt_u32_or(p.max_attempts, 1);
    if m < 1 {
        1
    } else {
        m
    }
}

pub open spec fn spec_max_backoff(p: RetryPolicy) -> u64 {
    let m = opt_u32_or(p.max_backoff_ms, 1);
    if m < 1 {
        1
    } else {
        m as u64
    }
}

/// The doubling of a backoff, capped at `max`.
pub open spec fn next_backoff(backoff: u64, max: u64) -> u64 {
    if 2 * backoff > u64::MAX {
        max
    } else if 2 * backoff <= max {
        (2 * backoff) as u64
    } else {
        max
    }
}

/// A doubled backoff never exceeds its cap, and a backoff within the cap never
/// shrinks.
pub proof fn lemma_backoff_capped(backoff: u64, max: u64)
    ensures
        next_backoff(backoff, max) <= max,
        backoff <= max ==> backoff <= next_backoff(backoff, max),
{
}

/// Attempt counter and backoff of one retried completion request.
pub struct RetrySchedule {
    attempt: u32,
    max_attempts: u32,
    backoff_ms: u64,
    max_backoff_ms: u64,
}

impl RetrySchedule {
    #[verifier::type_invariant]
    closed spec fn wf(self) -> bool {
        1 <= self.max_attempts && self.attempt <= self.max_attempts && 1 <= self.max_backoff_ms
    }

    pub closed spec fn attempts(&self) -> u32 {
        self.attempt
    }

    pub closed spec fn max_attempts(&self) -> u32 {
        self.max_attempts
    }

    pub closed spec fn backoff_ms(&self) -> u64 {
        self.backoff_ms
    }

    pub closed spec fn max_backoff_ms(&self) -> u64 {
        self.max_backoff_ms
    }

    pub fn new(policy: &RetryPolicy) -> (r: RetrySchedule)
        ensures
            r.attempts() == 0,
            1 <= r.max_attempts(),
            r.max_attempts() == spec_max_attempts(*policy),
            r.backoff_ms() == opt_u32_or(policy.initial_backoff_ms, 0),
            r.max_backoff_ms() == spec_max_backoff(*policy),
    {
        let m = policy.max_attempts.unwrap_or(1);
        let max_attempts = if m < 1 { 1 } else { m };
        let b = policy.max_backoff_ms.unwrap_or(1);
        let max_backoff: u32 = if b < 1 { 1 } else { b };
        RetrySchedule {
            attempt: 0,
            max_attempts,
            backoff_ms: policy.initial_backoff_ms.unwrap_or(0) as u64,
            max_backoff_ms: max_backoff as u64,
        }
    }

    /// Whether another attempt may be made.
    pub fn can_attempt(&self) -> (r: bool)
        ensures
            r == (self.attempts() < self.max_attempts()),
            self.attempts() <= self.max_attempts(),
            1 <= self.max_attempts(),
    {
        proof {
            use_type_invariant(self);
        }
        self.attempt < self.max_attempts
    }

    /// Count the attempt that is about to be made.
    pub fn begin_attempt(&mut self)
        requires
            old(self).attempts() < old(self).max_attempts(),
        ensures
            final(self).attempts() == old(self).attempts() + 1,
            final(self).max_attempts() == old(self).max_attempts(),
            final(self).backoff_ms() == old(self).backoff_ms(),
            final(self).max_backoff_ms() == old(self).max_backoff_ms(),
    {
        proof {
            use_type_invariant(&*self);
        }
        self.attempt = self.attempt + 1;
    }

    /// After a failed attempt: the backoff to wait before the next attempt when
    /// the error is retriable and attempts remain, else `None` (give up).
    pub fn after_failure(&mut self, err: &LlmError) -> (r: Option<u64>)
        ensures
            r is Some <==> retriable(*err) && old(self).attempts() < old(self).max_attempts(),
            r matches Some(d) ==> d == old(self).backoff_ms(),
            r is Some ==> final(self).backoff_ms() == next_backoff(
                old(self).backoff_ms(),
                old(self).max_backoff_ms(),
            ),
            r is None ==> final(self).backoff_ms() == old(self).backoff_ms(),
            final(self).attempts() == old(self).attempts(),
            final(self).max_attempts() == old(self).max_attempts(),
            final(self).max_backoff_ms() == old(self).max_backoff_ms(),
    {
        proof {
            use_type_invariant(&*self);
        }
        if err.is_retriable() && self.attempt < self.max_attempts {
            let delay = self.backoff_ms;
            let doubled = match self.backoff_ms.checked_mul(2) {
                Some(d) => d,
                None => self.max_backoff_ms,
            };
            self.backoff_ms = if doubled <= self.max_backoff_ms { doubled } else { self.max_backoff_ms };
            Some(delay)
        } else {
            None
        }
    }
}

/// Full-jitter delay: `backoff` itself when at most 1 ms, else
/// `lower + entropy % (backoff - lower + 1)` with `lower` the half of
/// `backoff` rounded up, which lies in `[backoff/2, backoff]`.
pub open spec fn jitter_spec(backoff_ms: u64, entropy: u64) -> u64 {
    if backoff_ms <= 1 {
        backoff_ms
    } else {
        let lower = (backoff_ms - backoff_ms / 2) as u64;
        (lower + entropy % ((backoff_ms - lower) as u64 + 1) as u64) as u64
    }
}

pub fn jittered(backoff_ms: u64, entropy: u64) -> (r: u64)
    ensures
        r == jitter_spec(backoff_ms, entropy),
        backoff_ms <= 2 * r,
        r <= backoff_ms,
{
    if backoff_ms <= 1 {
        return backoff_ms;
    }
    let lower = backoff_ms - backoff_ms / 2;
    let span = backoff_ms - lower;
    lower + entropy % (span + 1)
}

/// The error that an OpenAI-compatible client configuration is refused with, if any.
pub open spec fn llm_config_error(config: OpenAiCompatibleLlmConfig) -> Option<LlmError> {
    if nonblank(config.base_url) is None {
        Some(LlmError::InvalidConfig("base_url is required"))
    } else if nonblank(config.api_key) is None {
        Some(LlmError::InvalidConfig("api_key is required"))
    } else if nonblank(config.model) is None {
        Some(LlmError::InvalidConfig("model is required"))
    } else {
        None
    }
}

pub fn validate_llm_config(config: &OpenAiCompatibleLlmConfig) -> (r: Result<(), LlmError>)
    ensures
        r is Err <==> llm_config_error(*config) is Some,
        r matches Err(e) ==> Some(e) == llm_config_error(*config),
{
    if nonblank_str(&config.base_url).is_none() {
        return Err(LlmError::InvalidConfig("base_url is required"));
    }
    if nonblank_str(&config.api_key).is_none() {
        return Err(LlmError::InvalidConfig("api_key is required"));
    }
    if nonblank_str(&config.model).is_none() {
        return Err(LlmError::InvalidConfig("model is required"));
    }
    Ok(())
}

/// The role of a message; an absent role counts as unspecified.
pub open spec fn spec_message_role(msg: Message) -> Role {
    match msg.role {
        Some(r) => r,
        None => Role::Unspecified,
    }
}

pub fn message_role(msg: &Message) -> (r: Role)
    ensures
        r == spec_message_role(*msg),
{
    match msg.role {
        Some(r) => r,
        None => Role::Unspecified,
    }
}

/// The chat-completions role name; unspecified roles are sent as `user`.
pub open spec fn spec_role_name(role: Role) -> Seq<char> {
    match role {
        Role::System => "system"@,
        Role::User => "user"@,
        Role::Assistant => "assistant"@,
        Role::Tool => "tool"@,
        Role::Unspecified => "user"@,
    }
}

pub fn role_name(role: Role) -> (r: &'static str)
    ensures
        r@ == spec_role_name(role),
{
    match role {
        Role::System => "system",
        Role::User => "user",
        Role::Assistant => "assistant",
        Role::Tool => "tool",
        Role::Unspecified => "user",
    }
}

pub fn system_message(content: String) -> (r: Message)
    ensures
        r == (Message {
            role: Some(Role::System),
            content: Some(content),
            name: None,
            tool_call_id: None,
            tool_calls: r.tool_calls,
        }),
        r.tool_calls@.len() == 0,
{
    Message { role: Some(Role::System), content: Some(content), name: None, tool_call_id: None, tool_calls: Vec::new() }
}

pub fn user_message(content: String) -> (r: Message)
    ensures
        r == (Message {
            role: Some(Role::User),
            content: Some(content),
            name: None,
            tool_call_id: None,
            tool_calls: r.tool_calls,
        }),
        r.tool_calls@.len() == 0,
{
    Message { role: Some(Role::User), content: Some(content), name: None, tool_call_id: None, tool_calls: Vec::new() }
}

/// The assistant message that records `turn`.
pub open spec fn spec_assistant_message(m: Message, turn: AssistantTurn) -> bool {
    &&& m.role == Some(Role::Assistant)
    &&& m.content == turn.content
    &&& m.name is None
    &&& m.tool_call_id is None
    &&& m.tool_calls@ == turn.tool_calls@
}

pub fn assistant_message(turn: &AssistantTurn) -> (r: Message)
    ensures
        spec_assistant_message(r, *turn),
{
    Message {
        role: Some(Role::Assistant),
        content: copy_opt(&turn.content),
        name: None,
        tool_call_id: None,
        tool_calls: copy_tool_calls(&turn.tool_calls),
    }
}

/// The tool message that answers tool call `id` of tool `name`.
pub open spec fn spec_tool_message(m: Message, id: Seq<char>, name: Seq<char>, content: Seq<char>) -> bool {
    &&& m.role == Some(Role::Tool)
    &&& m.tool_call_id matches Some(i) && i@ == id
    &&& m.name matches Some(n) && n@ == name
    &&& m.content matches Some(c) && c@ == content
    &&& m.tool_calls@.len() == 0
}

pub fn tool_message(tool_call_id: String, name: String, content: String) -> (r: Message)
    ensures
        r == (Message {
            role: Some(Role::Tool),
            content: Some(content),
            name: Some(name),
            tool_call_id: Some(tool_call_id),
            tool_calls: r.tool_calls,
        }),
        r.tool_calls@.len() == 0,
        spec_tool_message(r, tool_call_id@, name@, content@),
{
    Message {
        role: Some(Role::Tool),
        content: Some(content),
        name: Some(name),
        tool_call_id: Some(tool_call_id),
        tool_calls: Vec::new(),
    }
}

/// Successive states of one schedule, each after one more begun attempt.
pub open spec fn attempt_chain(schedules: Seq<RetrySchedule>) -> bool {
    forall|i: int|
        0 <= i < schedules.len() - 1 ==> (#[trigger] schedules[i]).attempts() < schedules[i].max_attempts()
            && schedules[i + 1].attempts() == schedules[i].attempts() + 1 && schedules[i + 1].max_attempts()
            == schedules[i].max_attempts()
}

/// However a request is retried, each attempt counts one and needs one left,
/// so a fresh schedule allows at most `max_attempts` attempts, and after `k`
/// of them `attempts() == k`.
pub proof fn lemma_attempts_bounded(schedules: Seq<RetrySchedule>)
    requires
        schedules.len() >= 1,
        schedules[0].attempts() == 0,
        attempt_chain(schedules),
    ensures
        schedules.last().attempts() == schedules.len() - 1,
        schedules.last().max_attempts() == schedules[0].max_attempts(),
        schedules.len() - 1 <= schedules[0].max_attempts(),
    decreases schedules.len(),
{
    if schedules.len() > 1 {
        let p = schedules.drop_last();
        assert forall|i: int| 0 <= i < p.len() - 1 implies (#[trigger] p[i]).attempts() < p[i].max_attempts()
            && p[i + 1].attempts() == p[i].attempts() + 1 && p[i + 1].max_attempts() == p[i].max_attempts() by {
            assert(p[i] == schedules[i]);
            assert(p[i + 1] == schedules[i + 1]);
        }
        lemma_attempts_bounded(p);
        let n = schedules.len() - 1;
        assert(p.last() == schedules[n - 1]);
        assert(schedules[n - 1].attempts() < schedules[n - 1].max_attempts());
    }
}

} // verus!
