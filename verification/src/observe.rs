//! Observability hooks for the agent loop.
use std::io::Write;

use vstd::prelude::*;

use crate::text::{decimal_spec, decimal_text, opt_or, opt_str};
use crate::wire::{AgentLlmStep, AgentToolCall, AgentToolResult};

verus! {

/// Receives structured agent-loop events. Every method does nothing unless
/// an implementation says otherwise.
pub trait AgentObserver: Send + Sync {
    fn on_llm_step(&self, event: &AgentLlmStep) {
    }

    fn on_tool_call(&self, event: &AgentToolCall) {
    }

    fn on_tool_result(&self, event: &AgentToolResult) {
    }
}

/// One event that an agent turn reports to its observer.
#[derive(Clone, Debug, PartialEq)]
pub enum AgentEvent {
    LlmStep(AgentLlmStep),
    ToolCall(AgentToolCall),
    ToolResult(AgentToolResult),
}

/// The events handed to an observer, in order. The record grows only through
/// the methods below, each of which hands the event to the observer first.
pub struct ObserverLog {
    handed: Ghost<Seq<AgentEvent>>,
}

impl ObserverLog {
    /// The events handed over so far.
    pub closed spec fn events(&self) -> Seq<AgentEvent> {
        self.handed@
    }

    pub fn new() -> (r: ObserverLog)
        ensures
            r.events() == Seq::<AgentEvent>::empty(),
    {
        ObserverLog { handed: Ghost(Seq::empty()) }
    }

    /// Tell `observer` of a completion step.
    pub fn llm_step<O: AgentObserver>(&mut self, observer: &O, event: &AgentLlmStep)
        ensures
            final(self).events() == old(self).events().push(AgentEvent::LlmStep(*event)),
    {
        observer.on_llm_step(event);
        self.handed = Ghost(self.handed@.push(AgentEvent::LlmStep(*event)));
    }

    /// Tell `observer` of a tool call, before it runs.
    pub fn tool_call<O: AgentObserver>(&mut self, observer: &O, event: &AgentToolCall)
        ensures
            final(self).events() == old(self).events().push(AgentEvent::ToolCall(*event)),
    {
        observer.on_tool_call(event);
        self.handed = Ghost(self.handed@.push(AgentEvent::ToolCall(*event)));
    }

    /// Tell `observer` of a tool call's result.
    pub fn tool_result<O: AgentObserver>(&mut self, observer: &O, event: &AgentToolResult)
        ensures
            final(self).events() == old(self).events().push(AgentEvent::ToolResult(*event)),
    {
        observer.on_tool_result(event);
        self.handed = Ghost(self.handed@.push(AgentEvent::ToolResult(*event)));
    }
}

/// Observer that discards all events.
#[derive(Debug, Default, Clone, Copy)]
pub struct NoopObserver;

impl AgentObserver for NoopObserver {

}

/// Writes truncated agent events to stderr, one line each.
#[derive(Debug, Clone, Copy)]
pub struct StderrObserver {
    /// Max characters printed for args/content/output payloads.
    pub max_payload_chars: usize,
}

impl Default for StderrObserver {
    fn default() -> (r: Self)
        ensures
            r.max_payload_chars == 512,
    {
        StderrObserver { max_payload_chars: 512 }
    }
}

/// A payload cut to at most `max` characters; a cut payload is followed by
/// `…(+N chars)`, N being the number of characters left out.
pub open spec fn truncated_text(text: Seq<char>, max: nat) -> Seq<char> {
    if text.len() <= max {
        text
    } else {
        text.subrange(0, max as int) + "…(+"@ + decimal_spec(text.len() - max) + " chars)"@
    }
}

/// A payload within the limit is shown unchanged; a longer one keeps exactly
/// its first `max` characters, after which the marker follows.
pub proof fn lemma_truncation(text: Seq<char>, max: nat)
    ensures
        text.len() <= max ==> truncated_text(text, max) == text,
        text.len() > max ==> truncated_text(text, max).len() > max && truncated_text(text, max).subrange(
            0,
            max as int,
        ) == text.subrange(0, max as int),
{
    if text.len() > max {
        let t = truncated_text(text, max);
        assert(t.subrange(0, max as int) =~= text.subrange(0, max as int));
    }
}

/// A payload shown through [`StderrObserver`].
pub struct Truncated<'a> {
    pub text: &'a str,
    pub max: usize,
}

impl<'a> Truncated<'a> {
    pub fn to_string(&self) -> (r: String)
        ensures
            r@ == truncated_text(self.text@, self.max as nat),
    {
        let n = self.text.unicode_len();
        if n <= self.max {
            return String::from_str(self.text);
        }
        let mut out = String::from_str(self.text.substring_char(0, self.max));
        out.append("…(+");
        let rest = decimal_text((n - self.max) as i128);
        out.append(rest.as_str());
        out.append(" chars)");
        out
    }
}

pub open spec fn opt_u32(o: Option<u32>) -> u32 {
    match o {
        Some(v) => v,
        None => 0,
    }
}

/// `[agent] step={step} llm tool_calls={n}`, followed by ` content=…` when the content is not empty.
pub open spec fn llm_step_line(e: AgentLlmStep, max: nat) -> Seq<char> {
    let content = opt_or(e.content, ""@);
    let head = "[agent] step="@ + decimal_spec(opt_u32(e.step) as int) + " llm tool_calls="@ + decimal_spec(
        opt_u32(e.tool_call_count) as int,
    );
    if content.len() == 0 {
        head
    } else {
        head + " content="@ + truncated_text(content, max)
    }
}

/// `[agent] step={step} tool_call name={name} id={id} args={args}`.
pub open spec fn tool_call_line(e: AgentToolCall, max: nat) -> Seq<char> {
    "[agent] step="@ + decimal_spec(opt_u32(e.step) as int) + " tool_call name="@ + opt_or(e.tool_name, "?"@)
        + " id="@ + opt_or(e.tool_call_id, ""@) + " args="@ + truncated_text(opt_or(e.arguments_json, "{}"@), max)
}

/// `[agent] step={step} tool_result name={name} id={id} ok|err output={output}`.
pub open spec fn tool_result_line(e: AgentToolResult, max: nat) -> Seq<char> {
    let status = if e.ok == Some(true) {
        "ok"@
    } else {
        "err"@
    };
    "[agent] step="@ + decimal_spec(opt_u32(e.step) as int) + " tool_result name="@ + opt_or(e.tool_name, "?"@)
        + " id="@ + opt_or(e.tool_call_id, ""@) + " "@ + status + " output="@ + truncated_text(
        opt_or(e.output, ""@),
        max,
    )
}

/// Writes one line to the process's standard error.
#[verifier::external_body]
fn write_stderr_line(line: &str) {
    let _ = writeln!(std::io::stderr(), "{line}");
}

fn step_text(o: Option<u32>) -> (r: String)
    ensures
        r@ == decimal_spec(opt_u32(o) as int),
{
    let v: u32 = match o {
        Some(v) => v,
        None => 0,
    };
    decimal_text(v as i128)
}

impl StderrObserver {
    pub fn new(max_payload_chars: usize) -> (r: Self)
        ensures
            r.max_payload_chars == max_payload_chars,
    {
        StderrObserver { max_payload_chars }
    }

    pub fn trunc<'a>(&self, s: &'a str) -> (r: Truncated<'a>)
        ensures
            r.text == s,
            r.max == self.max_payload_chars,
    {
        Truncated { text: s, max: self.max_payload_chars }
    }

    pub fn llm_step_line(&self, event: &AgentLlmStep) -> (r: String)
        ensures
            r@ == llm_step_line(*event, self.max_payload_chars as nat),
    {
        let content = opt_str(&event.content, "");
        let mut out = String::from_str("[agent] step=");
        out.append(step_text(event.step).as_str());
        out.append(" llm tool_calls=");
        out.append(step_text(event.tool_call_count).as_str());
        proof {
            reveal_strlit("");
        }
        if content.unicode_len() != 0 {
            out.append(" content=");
            out.append(self.trunc(content).to_string().as_str());
        }
        out
    }

    pub fn tool_call_line(&self, event: &AgentToolCall) -> (r: String)
        ensures
            r@ == tool_call_line(*event, self.max_payload_chars as nat),
    {
        let mut out = String::from_str("[agent] step=");
        out.append(step_text(event.step).as_str());
        out.append(" tool_call name=");
        out.append(opt_str(&event.tool_name, "?"));
        out.append(" id=");
        out.append(opt_str(&event.tool_call_id, ""));
        out.append(" args=");
        out.append(self.trunc(opt_str(&event.arguments_json, "{}")).to_string().as_str());
        out
    }

    pub fn tool_result_line(&self, event: &AgentToolResult) -> (r: String)
        ensures
            r@ == tool_result_line(*event, self.max_payload_chars as nat),
    {
        let mut out = String::from_str("[agent] step=");
        out.append(step_text(event.step).as_str());
        out.append(" tool_result name=");
        out.append(opt_str(&event.tool_name, "?"));
        out.append(" id=");
        out.append(opt_str(&event.tool_call_id, ""));
        out.append(" ");
        let ok = match event.ok {
            Some(b) => b,
            None => false,
        };
        if ok {
            out.append("ok");
        } else {
            out.append("err");
        }
        out.append(" output=");
        out.append(self.trunc(opt_str(&event.output, "")).to_string().as_str());
        out
    }
}

impl AgentObserver for StderrObserver {
    fn on_llm_step(&self, event: &AgentLlmStep) {
        let line = self.llm_step_line(event);
        write_stderr_line(line.as_str());
    }

    fn on_tool_call(&self, event: &AgentToolCall) {
        let line = self.tool_call_line(event);
        write_stderr_line(line.as_str());
    }

    fn on_tool_result(&self, event: &AgentToolResult) {
        let line = self.tool_result_line(event);
        write_stderr_line(line.as_str());
    }
}

} // verus!
