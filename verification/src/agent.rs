//! The agent turn: skills and system prompt → LLM ↔ tools until the model
//! answers without tool calls or the step budget is spent.
//!
//! The loop is driven from outside, since each LLM completion is awaited:
//! [`plan_agent_run`] checks the request, [`AgentRun::start`] builds the first
//! messages, and [`AgentRun::on_turn`] records each completion, runs the tool
//! calls it asks for and says whether the turn is over.
use vstd::prelude::*;

use crate::llm::{
    assistant_message, llm_error_text, spec_assistant_message, system_message, tool_message, user_message,
    AssistantTurn, LlmError,
};
use crate::observe::{AgentEvent, AgentObserver, ObserverLog};
use crate::skills::{skills_error_text, SkillsError};
use crate::text::{decimal_spec, decimal_text, join, join_spec, nonblank, nonblank_str, opt_or, opt_str, views};
use crate::tools::{tool_error_text, Tool, ToolError, ToolRegistry};
use crate::wire::{
    AgentLlmStep, AgentToolCall, AgentToolResult, AgentTurn, LoadSkills, Message, Role, RunAgent, SkillBundle,
    SkillFile, ToolCall,
};

verus! {

/// Errors of an agent turn.
#[derive(Clone, Debug, PartialEq)]
pub enum Error {
    MissingUserMessage,
    MissingMaxSteps,
    MissingWorkspaceRootForSkill,
    Skills(SkillsError),
    Llm(LlmError),
    Tool(ToolError),
    MaxStepsExceeded(u32),
}

pub open spec fn agent_error_text(e: Error) -> Seq<char> {
    match e {
        Error::MissingUserMessage => "user_message is required"@,
        Error::MissingMaxSteps => "max_steps must be >= 1"@,
        Error::MissingWorkspaceRootForSkill => "skill_id set but workspace_root is missing"@,
        Error::Skills(s) => skills_error_text(s),
        Error::Llm(l) => llm_error_text(l),
        Error::Tool(t) => tool_error_text(t),
        Error::MaxStepsExceeded(n) => "max_steps ("@ + decimal_spec(n as int) + ") reached without a final assistant text"@,
    }
}

impl Error {
    pub fn to_string(&self) -> (r: String)
        ensures
            r@ == agent_error_text(*self),
    {
        match self {
            Error::MissingUserMessage => String::from_str("user_message is required"),
            Error::MissingMaxSteps => String::from_str("max_steps must be >= 1"),
            Error::MissingWorkspaceRootForSkill => String::from_str("skill_id set but workspace_root is missing"),
            Error::Skills(s) => s.to_string(),
            Error::Llm(l) => l.to_string(),
            Error::Tool(t) => t.to_string(),
            Error::MaxStepsExceeded(n) => {
                let mut out = String::from_str("max_steps (");
                out.append(decimal_text(*n as i128).as_str());
                out.append(") reached without a final assistant text");
                out
            },
        }
    }
}

/// The markdown of one skill file: a `## name` heading, then the content,
/// ending in a newline.
pub open spec fn file_section(f: SkillFile) -> Seq<char> {
    let content = opt_or(f.content, ""@);
    let tail = if content.len() > 0 && content.last() == '\n' {
        Seq::empty()
    } else {
        "\n"@
    };
    "\n## "@ + opt_or(f.name, "unnamed.md"@) + "\n"@ + content + tail
}

pub open spec fn file_sections(files: Seq<SkillFile>) -> Seq<char>
    decreases files.len(),
{
    if files.len() == 0 {
        Seq::empty()
    } else {
        file_sections(files.drop_last()) + file_section(files.last())
    }
}

/// `# Skill: {id}` followed by one section per file, in order.
pub open spec fn skills_prompt(bundle: SkillBundle) -> Seq<char> {
    "# Skill: "@ + opt_or(bundle.skill_id, "unknown"@) + "\n"@ + file_sections(bundle.files@)
}

/// Format a skill bundle into system-prompt markdown.
pub fn format_skills_prompt(bundle: &SkillBundle) -> (r: String)
    ensures
        r@ == skills_prompt(*bundle),
{
    let mut out = String::from_str("# Skill: ");
    out.append(opt_str(&bundle.skill_id, "unknown"));
    out.append("\n");
    let n = bundle.files.len();
    let mut i: usize = 0;
    proof {
        reveal_strlit("");
        assert(bundle.files@.take(0) =~= Seq::<SkillFile>::empty());
    }
    while i < n
        invariant
            n == bundle.files@.len(),
            i <= n,
            out@ == "# Skill: "@ + opt_or(bundle.skill_id, "unknown"@) + "\n"@ + file_sections(bundle.files@.take(i as int)),
            ""@ == Seq::<char>::empty(),
        decreases n - i,
    {
        let file = &bundle.files[i];
        let name = opt_str(&file.name, "unnamed.md");
        let content = opt_str(&file.content, "");
        let ghost before = out@;
        out.append("\n## ");
        out.append(name);
        out.append("\n");
        out.append(content);
        let len = content.unicode_len();
        if !(len > 0 && content.get_char(len - 1) == '\n') {
            out.append("\n");
        }
        assert(bundle.files@.take(i + 1).drop_last() =~= bundle.files@.take(i as int));
        assert(bundle.files@.take(i + 1).last() == *file);
        assert(out@ =~= before + file_section(*file));
        i += 1;
    }
    assert(bundle.files@.take(n as int) =~= bundle.files@);
    out
}

/// A checked agent request.
#[derive(Clone, Debug, PartialEq)]
pub struct AgentSetup {
    /// The trimmed user message.
    pub user_message: String,
    pub max_steps: u32,
    /// The skills to load first, when a skill is asked for.
    pub skill_request: Option<LoadSkills>,
    /// The trimmed extra system prompt, when one is given.
    pub system_prompt: Option<String>,
}

pub open spec fn max_steps_ok(params: RunAgent) -> bool {
    params.max_steps matches Some(n) && n >= 1
}

/// Check an agent request: a non-blank user message, `max_steps >= 1`, and a
/// workspace root whenever a skill is asked for (checked in that order).
pub fn plan_agent_run(params: &RunAgent) -> (r: Result<AgentSetup, Error>)
    ensures
        nonblank(params.user_message) is None ==> r == Err::<AgentSetup, Error>(Error::MissingUserMessage),
        nonblank(params.user_message) is Some && !max_steps_ok(*params) ==> r == Err::<AgentSetup, Error>(
            Error::MissingMaxSteps,
        ),
        nonblank(params.user_message) is Some && max_steps_ok(*params) && nonblank(params.skill_id) is Some
            && nonblank(params.workspace_root) is None ==> r == Err::<AgentSetup, Error>(
            Error::MissingWorkspaceRootForSkill,
        ),
        r is Ok <==> (nonblank(params.user_message) is Some && max_steps_ok(*params) && (nonblank(params.skill_id) is Some
            ==> nonblank(params.workspace_root) is Some)),
        r matches Ok(s) ==> {
            &&& s.user_message@ == nonblank(params.user_message)->0
            &&& s.max_steps == params.max_steps->0
            &&& (nonblank(params.skill_id) is None ==> s.skill_request is None)
            &&& (nonblank(params.skill_id) is Some ==> s.skill_request is Some)
            &&& (nonblank(params.skill_id) is Some ==> (s.skill_request->0.workspace_root matches Some(w) && w@
                == nonblank(params.workspace_root)->0))
            &&& (nonblank(params.skill_id) is Some ==> (s.skill_request->0.skill_id matches Some(k) && k@
                == nonblank(params.skill_id)->0))
            &&& (nonblank(params.system_prompt) is None ==> s.system_prompt is None)
            &&& (nonblank(params.system_prompt) is Some ==> (s.system_prompt matches Some(p) && p@ == nonblank(
                params.system_prompt,
            )->0))
        },
{
    let user = match nonblank_str(&params.user_message) {
        Some(u) => u,
        None => {
            return Err(Error::MissingUserMessage);
        },
    };
    let max_steps = match params.max_steps {
        Some(n) if n >= 1 => n,
        _ => {
            return Err(Error::MissingMaxSteps);
        },
    };
    let skill_request = match nonblank_str(&params.skill_id) {
        Some(skill) => {
            let root = match nonblank_str(&params.workspace_root) {
                Some(w) => w,
                None => {
                    return Err(Error::MissingWorkspaceRootForSkill);
                },
            };
            Some(
                LoadSkills {
                    workspace_root: Some(String::from_str(root)),
                    skill_id: Some(String::from_str(skill)),
                },
            )
        },
        None => None,
    };
    let system_prompt = match nonblank_str(&params.system_prompt) {
        Some(p) => Some(String::from_str(p)),
        None => None,
    };
    Ok(AgentSetup { user_message: String::from_str(user), max_steps, skill_request, system_prompt })
}

/// The system prompt of a turn: the skill markdown and the extra prompt, those
/// that are present, separated by a blank line; none when neither is.
pub open spec fn system_text(setup: AgentSetup, skills: Option<SkillBundle>) -> Option<Seq<char>> {
    let from_skills: Seq<Seq<char>> = match skills {
        Some(b) => seq![skills_prompt(b)],
        None => Seq::empty(),
    };
    let parts = match setup.system_prompt {
        Some(p) => from_skills.push(p@),
        None => from_skills,
    };
    if parts.len() == 0 {
        None
    } else {
        Some(join_spec(parts, "\n\n"@))
    }
}

/// A turn's system prompt, by cases: without skills it is the extra prompt
/// alone, and there is none when no extra prompt was given; with skills it is
/// the skill markdown, followed by a blank line and the extra prompt when one
/// was given.
pub proof fn lemma_system_text(setup: AgentSetup, skills: Option<SkillBundle>)
    ensures
        skills is None ==> system_text(setup, skills) == match setup.system_prompt {
            Some(p) => Some(p@),
            None => None::<Seq<char>>,
        },
        skills matches Some(b) ==> system_text(setup, skills) == Some(
            match setup.system_prompt {
                Some(p) => skills_prompt(b) + "\n\n"@ + p@,
                None => skills_prompt(b),
            },
        ),
{
    let from_skills: Seq<Seq<char>> = match skills {
        Some(b) => seq![skills_prompt(b)],
        None => Seq::empty(),
    };
    if setup.system_prompt is Some {
        let parts = from_skills.push(setup.system_prompt->0@);
        if skills is Some {
            assert(parts.drop_last() =~= seq![skills_prompt(skills->0)]);
            assert(join_spec(parts.drop_last(), "\n\n"@) == skills_prompt(skills->0));
        } else {
            assert(parts =~= seq![setup.system_prompt->0@]);
        }
    }
}

/// A plain text message from `role`.
pub open spec fn text_message(m: Message, role: Role, text: Seq<char>) -> bool {
    &&& m.role == Some(role)
    &&& m.content matches Some(c) && c@ == text
    &&& m.name is None
    &&& m.tool_call_id is None
    &&& m.tool_calls@.len() == 0
}

/// The name, id and arguments of a tool call: empty, empty and `{}` when absent.
pub open spec fn call_name(c: ToolCall) -> Seq<char> {
    opt_or(c.name, ""@)
}

pub open spec fn call_id(c: ToolCall) -> Seq<char> {
    opt_or(c.id, ""@)
}

pub open spec fn call_args(c: ToolCall) -> Seq<char> {
    opt_or(c.arguments_json, "{}"@)
}

/// `r` is an answer that the registry `tools` may give to a call of `name`
/// with `args`: the named tool's result, or `Unknown(name)` when none is named so.
pub open spec fn registry_answer<T: Tool>(
    tools: Map<Seq<char>, T>,
    name: Seq<char>,
    args: Seq<char>,
    r: Result<String, ToolError>,
) -> bool {
    if tools.dom().contains(name) {
        tools[name].spec_call(args, r)
    } else {
        r matches Err(ToolError::Unknown(n)) && n@ == name
    }
}

/// The text that answers a tool call: the tool's output, or its error's text.
pub open spec fn answer_text(r: Result<String, ToolError>) -> Seq<char> {
    match r {
        Ok(s) => s@,
        Err(e) => tool_error_text(e),
    }
}

/// `results` answers the tool calls of `turn`, one each, in order, each call
/// made with the call's own name and arguments.
pub open spec fn step_results<T: Tool>(
    tools: Map<Seq<char>, T>,
    turn: AssistantTurn,
    results: Seq<Result<String, ToolError>>,
) -> bool {
    &&& results.len() == turn.tool_calls@.len()
    &&& forall|i: int|
        0 <= i < results.len() ==> registry_answer(
            tools,
            call_name(turn.tool_calls@[i]),
            call_args(turn.tool_calls@[i]),
            #[trigger] results[i],
        )
}

/// What one completion adds to the transcript: the assistant message, then one
/// tool message per tool call, in order, answering that call's id and name
/// with the text of its result.
pub open spec fn step_messages(
    before: Seq<Message>,
    after: Seq<Message>,
    turn: AssistantTurn,
    results: Seq<Result<String, ToolError>>,
) -> bool {
    let k = turn.tool_calls@.len();
    let n = before.len();
    &&& after.len() == n + 1 + k
    &&& after.subrange(0, n as int) == before
    &&& spec_assistant_message(after[n as int], turn)
    &&& forall|i: int|
        0 <= i < k ==> {
            let call = #[trigger] turn.tool_calls@[i];
            let m = after[n + 1 + i];
            &&& m.role == Some(Role::Tool)
            &&& m.tool_call_id matches Some(id) && id@ == call_id(call)
            &&& m.name matches Some(nm) && nm@ == call_name(call)
            &&& m.content matches Some(c) && c@ == answer_text(results[i])
            &&& m.tool_calls@.len() == 0
        }
}

/// The event of a completion at `step`: its number of tool calls and its text.
pub open spec fn llm_step_event(ev: AgentEvent, step: u32, turn: AssistantTurn) -> bool {
    &&& ev matches AgentEvent::LlmStep(e)
    &&& e.step == Some(step)
    &&& e.tool_call_count == Some(turn.tool_calls@.len() as u32)
    &&& e.content matches Some(c) && c@ == opt_or(turn.content, ""@)
}

/// The event of a tool call, before it runs.
pub open spec fn tool_call_event(ev: AgentEvent, step: u32, call: ToolCall) -> bool {
    &&& ev matches AgentEvent::ToolCall(e)
    &&& e.step == Some(step)
    &&& e.tool_call_id matches Some(x) && x@ == call_id(call)
    &&& e.tool_name matches Some(x) && x@ == call_name(call)
    &&& e.arguments_json matches Some(x) && x@ == call_args(call)
}

/// The event of a tool call's result: whether it succeeded, and its text.
pub open spec fn tool_result_event(ev: AgentEvent, step: u32, call: ToolCall, r: Result<String, ToolError>) -> bool {
    &&& ev matches AgentEvent::ToolResult(e)
    &&& e.step == Some(step)
    &&& e.tool_call_id matches Some(x) && x@ == call_id(call)
    &&& e.tool_name matches Some(x) && x@ == call_name(call)
    &&& e.ok == Some(r is Ok)
    &&& e.output matches Some(x) && x@ == answer_text(r)
}

/// The events of one completion: the step, then for each tool call, in
/// order, the call and its result.
pub open spec fn step_events(
    events: Seq<AgentEvent>,
    step: u32,
    turn: AssistantTurn,
    results: Seq<Result<String, ToolError>>,
) -> bool {
    let k = turn.tool_calls@.len();
    &&& events.len() == 1 + 2 * k
    &&& llm_step_event(events[0], step, turn)
    &&& forall|i: int|
        0 <= i < k ==> tool_call_event(events[1 + 2 * i], step, #[trigger] turn.tool_calls@[i])
            && tool_result_event(events[2 + 2 * i], step, turn.tool_calls@[i], results[i])
}

/// The state of one agent turn between completions.
pub struct AgentRun {
    messages: Vec<Message>,
    steps: u32,
    max_steps: u32,
    reported: ObserverLog,
}

impl AgentRun {
    #[verifier::type_invariant]
    closed spec fn wf(self) -> bool {
        self.steps <= self.max_steps
    }

    /// The messages so far.
    pub closed spec fn transcript(&self) -> Seq<Message> {
        self.messages@
    }

    /// The completions recorded so far.
    pub closed spec fn steps(&self) -> u32 {
        self.steps
    }

    pub closed spec fn max_steps(&self) -> u32 {
        self.max_steps
    }

    /// The events reported to the observer so far, in order.
    pub closed spec fn events(&self) -> Seq<AgentEvent> {
        self.reported.events()
    }

    /// The first messages of a turn: the system prompt, if there is one, then
    /// the user message.
    pub fn start(setup: &AgentSetup, skills: Option<&SkillBundle>) -> (r: AgentRun)
        ensures
            r.steps() == 0,
            r.max_steps() == setup.max_steps,
            r.events() == Seq::<AgentEvent>::empty(),
            system_text(*setup, match skills {
                Some(b) => Some(*b),
                None => None,
            }) matches Some(t) ==> r.transcript().len() == 2 && text_message(r.transcript()[0], Role::System, t)
                && text_message(r.transcript()[1], Role::User, setup.user_message@),
            system_text(*setup, match skills {
                Some(b) => Some(*b),
                None => None,
            }) is None ==> r.transcript().len() == 1 && text_message(
                r.transcript()[0],
                Role::User,
                setup.user_message@,
            ),
            skills is None && setup.system_prompt is Some ==> r.transcript().len() == 2 && text_message(
                r.transcript()[0],
                Role::System,
                setup.system_prompt->0@,
            ),
            skills is None && setup.system_prompt is None ==> r.transcript().len() == 1,
            skills matches Some(b) ==> r.transcript().len() == 2 && text_message(
                r.transcript()[0],
                Role::System,
                match setup.system_prompt {
                    Some(p) => skills_prompt(*b) + "\n\n"@ + p@,
                    None => skills_prompt(*b),
                },
            ),
    {
        proof {
            lemma_system_text(
                *setup,
                match skills {
                    Some(b) => Some(*b),
                    None => None,
                },
            );
        }
        let mut parts: Vec<String> = Vec::new();
        match skills {
            Some(b) => parts.push(format_skills_prompt(b)),
            None => {},
        }
        match &setup.system_prompt {
            Some(p) => parts.push(p.clone()),
            None => {},
        }
        let ghost sk = match skills {
            Some(b) => Some(*b),
            None => None,
        };
        proof {
            let from_skills: Seq<Seq<char>> = match sk {
                Some(b) => seq![skills_prompt(b)],
                None => Seq::empty(),
            };
            let expected = if setup.system_prompt is Some {
                from_skills.push(setup.system_prompt->0@)
            } else {
                from_skills
            };
            assert(views(parts@) =~= expected);
        }
        let mut messages: Vec<Message> = Vec::new();
        if parts.len() > 0 {
            messages.push(system_message(join(&parts, "\n\n")));
        }
        messages.push(user_message(setup.user_message.clone()));
        AgentRun { messages, steps: 0, max_steps: setup.max_steps, reported: ObserverLog::new() }
    }

    /// The run that a checked request opens once its skills were loaded
    /// (`loaded`: the bundle when a skill was asked for, or the load's error).
    /// A load error ends the turn as `Error::Skills` before any completion.
    pub fn open(setup: &AgentSetup, loaded: Result<Option<SkillBundle>, SkillsError>) -> (r: Result<AgentRun, Error>)
        ensures
            loaded matches Err(e) ==> r == Err::<AgentRun, Error>(Error::Skills(e)),
            loaded matches Ok(b) ==> (r matches Ok(run) && {
                &&& run.steps() == 0
                &&& run.max_steps() == setup.max_steps
                &&& run.events() == Seq::<AgentEvent>::empty()
                &&& system_text(*setup, b) matches Some(t) ==> run.transcript().len() == 2 && text_message(
                    run.transcript()[0],
                    Role::System,
                    t,
                ) && text_message(run.transcript()[1], Role::User, setup.user_message@)
                &&& system_text(*setup, b) is None ==> run.transcript().len() == 1 && text_message(
                    run.transcript()[0],
                    Role::User,
                    setup.user_message@,
                )
            }),
    {
        match loaded {
            Err(e) => Err(Error::Skills(e)),
            Ok(bundle) => Ok(AgentRun::start(setup, bundle.as_ref())),
        }
    }

    /// The messages to send with the next completion request.
    pub fn messages(&self) -> (r: &Vec<Message>)
        ensures
            r@ == self.transcript(),
    {
        &self.messages
    }

    /// Whether another completion may be requested.
    pub fn can_call_llm(&self) -> (r: bool)
        ensures
            r == (self.steps() < self.max_steps()),
    {
        self.steps < self.max_steps
    }

    /// The error of a turn whose step budget ran out.
    pub fn max_steps_error(&self) -> (r: Error)
        ensures
            r == Error::MaxStepsExceeded(self.max_steps()),
    {
        Error::MaxStepsExceeded(self.max_steps)
    }

    /// Record a completion. Without tool calls it ends the turn with its text;
    /// otherwise each tool call is run through `tools` with its own arguments,
    /// in order, and answered by a tool message carrying its output, or its
    /// error's text. The observer is told of the step, then of each call and
    /// its result.
    pub fn on_turn<T: Tool, O: AgentObserver>(
        &mut self,
        turn: AssistantTurn,
        tools: &ToolRegistry<T>,
        observer: &O,
    ) -> (r: Option<AgentTurn>)
        requires
            old(self).steps() < old(self).max_steps(),
        ensures
            final(self).steps() == old(self).steps() + 1,
            final(self).steps() <= final(self).max_steps(),
            final(self).max_steps() == old(self).max_steps(),
            r is Some <==> turn.tool_calls@.len() == 0,
            exists|results: Seq<Result<String, ToolError>>, events: Seq<AgentEvent>|
                {
                    &&& #[trigger] step_results(tools@, turn, results)
                    &&& step_messages(
                        old(self).transcript(),
                        match r {
                            Some(t) => t.messages@,
                            None => final(self).transcript(),
                        },
                        turn,
                        results,
                    )
                    &&& #[trigger] step_events(events, final(self).steps(), turn, results)
                    &&& final(self).events() == old(self).events() + events
                },
            r matches Some(t) ==> {
                &&& t.final_text matches Some(f) && f@ == opt_or(turn.content, ""@)
                &&& t.steps == Some(final(self).steps())
            },
    {
        proof {
            use_type_invariant(&*self);
            reveal_strlit("");
            reveal_strlit("{}");
        }
        self.steps = self.steps + 1;
        let step = self.steps;
        let mut messages: Vec<Message> = Vec::new();
        std::mem::swap(&mut messages, &mut self.messages);
        let ghost before = messages@;
        let ghost old_events = self.reported.events();
        let mut log = ObserverLog::new();
        std::mem::swap(&mut log, &mut self.reported);
        let n = messages.len();
        messages.push(assistant_message(&turn));
        let content = opt_str(&turn.content, "");
        let step_event = AgentLlmStep {
            step: Some(step),
            tool_call_count: Some(turn.tool_calls.len() as u32),
            content: Some(String::from_str(content)),
        };
        log.llm_step(observer, &step_event);
        let ghost mut events: Seq<AgentEvent> = seq![AgentEvent::LlmStep(step_event)];
        let ghost mut results: Seq<Result<String, ToolError>> = Seq::empty();
        assert(llm_step_event(events[0], step, turn));
        let k = turn.tool_calls.len();
        let mut i: usize = 0;
        while i < k
            invariant
                k == turn.tool_calls@.len(),
                i <= k,
                n == before.len(),
                messages@.len() == n + 1 + i,
                messages@.subrange(0, n as int) == before,
                spec_assistant_message(messages@[n as int], turn),
                results.len() == i,
                events.len() == 1 + 2 * i,
                llm_step_event(events[0], step, turn),
                log.events() == old_events + events,
                forall|j: int|
                    0 <= j < i ==> registry_answer(
                        tools@,
                        call_name(turn.tool_calls@[j]),
                        call_args(turn.tool_calls@[j]),
                        #[trigger] results[j],
                    ),
                forall|j: int|
                    0 <= j < i ==> tool_call_event(events[1 + 2 * j], step, #[trigger] turn.tool_calls@[j])
                        && tool_result_event(events[2 + 2 * j], step, turn.tool_calls@[j], results[j]),
                forall|j: int|
                    0 <= j < i ==> {
                        let call = #[trigger] turn.tool_calls@[j];
                        let m = messages@[n + 1 + j];
                        &&& m.role == Some(Role::Tool)
                        &&& m.tool_call_id matches Some(id) && id@ == call_id(call)
                        &&& m.name matches Some(nm) && nm@ == call_name(call)
                        &&& m.content matches Some(c) && c@ == answer_text(results[j])
                        &&& m.tool_calls@.len() == 0
                    },
            decreases k - i,
        {
            let call = &turn.tool_calls[i];
            let name = opt_str(&call.name, "");
            let id = opt_str(&call.id, "");
            let args = opt_str(&call.arguments_json, "{}");
            let call_event = AgentToolCall {
                step: Some(step),
                tool_call_id: Some(String::from_str(id)),
                tool_name: Some(String::from_str(name)),
                arguments_json: Some(String::from_str(args)),
            };
            log.tool_call(observer, &call_event);
            let answer = tools.call(name, args);
            let ghost answered = answer;
            let (ok, output) = match answer {
                Ok(s) => (true, s),
                Err(e) => (false, e.to_string()),
            };
            let result_event = AgentToolResult {
                step: Some(step),
                tool_call_id: Some(String::from_str(id)),
                tool_name: Some(String::from_str(name)),
                ok: Some(ok),
                output: Some(output.clone()),
            };
            log.tool_result(observer, &result_event);
            let ghost prev = messages@;
            messages.push(tool_message(String::from_str(id), String::from_str(name), output));
            proof {
                let ev_call = AgentEvent::ToolCall(call_event);
                let ev_result = AgentEvent::ToolResult(result_event);
                assert(registry_answer(tools@, call_name(*call), call_args(*call), answered));
                assert(tool_call_event(ev_call, step, *call));
                assert(tool_result_event(ev_result, step, *call, answered));
                let prev_events = events;
                let prev_results = results;
                events = events.push(ev_call).push(ev_result);
                assert(log.events() =~= old_events + events);
                results = results.push(answered);
                assert(messages@.subrange(0, n as int) =~= prev.subrange(0, n as int));
                assert forall|j: int| 0 <= j < i + 1 implies registry_answer(
                    tools@,
                    call_name(turn.tool_calls@[j]),
                    call_args(turn.tool_calls@[j]),
                    #[trigger] results[j],
                ) by {
                    if j < i {
                        assert(results[j] == prev_results[j]);
                    }
                }
                assert forall|j: int| 0 <= j < i + 1 implies tool_call_event(
                    events[1 + 2 * j],
                    step,
                    #[trigger] turn.tool_calls@[j],
                ) && tool_result_event(events[2 + 2 * j], step, turn.tool_calls@[j], results[j]) by {
                    if j < i {
                        assert(events[1 + 2 * j] == prev_events[1 + 2 * j]);
                        assert(events[2 + 2 * j] == prev_events[2 + 2 * j]);
                        assert(results[j] == prev_results[j]);
                    }
                }
                assert forall|j: int| 0 <= j < i + 1 implies {
                    let call = #[trigger] turn.tool_calls@[j];
                    let m = messages@[n + 1 + j];
                    &&& m.role == Some(Role::Tool)
                    &&& m.tool_call_id matches Some(id) && id@ == call_id(call)
                    &&& m.name matches Some(nm) && nm@ == call_name(call)
                    &&& m.content matches Some(c) && c@ == answer_text(results[j])
                    &&& m.tool_calls@.len() == 0
                } by {
                    if j < i {
                        assert(messages@[n + 1 + j] == prev[n + 1 + j]);
                        assert(results[j] == prev_results[j]);
                    }
                }
                assert(events[0] == prev_events[0]);
            }
            i += 1;
        }
        self.reported = log;
        proof {
            assert(step_results(tools@, turn, results));
            assert(step_events(events, step, turn, results));
        }
        if k == 0 {
            let final_text = match turn.content {
                Some(c) => c,
                None => String::new(),
            };
            let out = AgentTurn { final_text: Some(final_text), steps: Some(self.steps), messages };
            assert(step_messages(before, out.messages@, turn, results));
            assert(self.events() == old(self).events() + events);
            assert(step_results(tools@, turn, results) && step_messages(
                old(self).transcript(),
                out.messages@,
                turn,
                results,
            ) && step_events(events, self.steps(), turn, results) && self.events() == old(self).events() + events);
            return Some(out);
        }
        self.messages = messages;
        assert(step_messages(before, self.messages@, turn, results));
        assert(step_results(tools@, turn, results) && step_messages(
            old(self).transcript(),
            self.transcript(),
            turn,
            results,
        ) && step_events(events, self.steps(), turn, results) && self.events() == old(self).events() + events);
        None
    }
}

/// Successive states of one run, each after one more recorded completion.
pub open spec fn completion_chain(runs: Seq<AgentRun>) -> bool {
    forall|i: int|
        0 <= i < runs.len() - 1 ==> (#[trigger] runs[i]).steps() < runs[i].max_steps() && runs[i + 1].steps()
            == runs[i].steps() + 1 && runs[i + 1].max_steps() == runs[i].max_steps()
}

/// However a turn is driven, each completion it records counts one step and
/// needs a step left, so a turn records at most `max_steps` completions, and
/// after `k` of them `steps() == k`.
pub proof fn lemma_completions_bounded(runs: Seq<AgentRun>)
    requires
        runs.len() >= 1,
        runs[0].steps() == 0,
        completion_chain(runs),
    ensures
        runs.last().steps() == runs.len() - 1,
        runs.last().max_steps() == runs[0].max_steps(),
        runs.len() - 1 <= runs[0].max_steps(),
    decreases runs.len(),
{
    if runs.len() > 1 {
        let p = runs.drop_last();
        assert forall|i: int| 0 <= i < p.len() - 1 implies (#[trigger] p[i]).steps() < p[i].max_steps()
            && p[i + 1].steps() == p[i].steps() + 1 && p[i + 1].max_steps() == p[i].max_steps() by {
            assert(p[i] == runs[i]);
            assert(p[i + 1] == runs[i + 1]);
        }
        lemma_completions_bounded(p);
        let n = runs.len() - 1;
        assert(p.last() == runs[n - 1]);
        assert(runs[n - 1].steps() < runs[n - 1].max_steps());
    }
}

} // verus!
