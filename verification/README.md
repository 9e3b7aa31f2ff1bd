# agent_kit

A small runtime for tool-using LLM agents, with the dependency-bot helpers
that sit on top of it. The library in `src/` is written in Verus: each public
function carries a contract over mathematical models (sequences, maps, views)
and Verus proves that the code meets it.

## Layout

- `src/wire.rs`: the plain message types (chat messages, tool specs, tool
  arguments and results, the tools file, doctor reports).
- `src/text.rs`, `src/paths.rs`: text helpers and Unix path text (joining,
  components, containment).
- `src/tools.rs`: the `Tool` trait and the name → tool registry. The trait's
  spec functions `declared_spec` and `spec_call` are what an implementation
  promises of `spec` and `call`; Verus holds only implementations that it
  verifies to them, and implementations in `app/` and `tests/` keep to them
  by their own code.
- `src/llm.rs`, `src/openai.rs`: LLM errors and their retry classification,
  the retry schedule and jitter, message constructors, and the framing of
  OpenAI chat-completions requests and replies.
- `src/agent.rs`: the agent turn as a state machine (`AgentRun`): the first
  messages, then one step per completion, running tool calls in order. The
  observer is told of events only through `observe::ObserverLog`, whose
  record (`AgentRun::events`) grows by each event as it is handed over.
- `src/observe.rs`: observer hooks and the stderr observer's lines.
- `src/fs_tools.rs`, `src/shell_tools.rs`: the rules of the sandboxed
  `read_file`, `list_dir` and `run_command` tools.
- `src/skills.rs`: where a skill lives and which of its files are read.
- `src/depbot_config.rs`, `src/doctor.rs`: the tools file's checks and the
  doctor preflight (ecosystems → required programs → allowlist and PATH).
- `app/`: the `ai-agent` command line and everything that touches the file
  system, processes, the network or the clock: the HTTP client, the retry
  loop's sleeps, the tools' file and process work, skill loading, tools-file
  loading and PATH search.
- `tests/`: tests of the library on concrete values.

Laws that span several functions are public proof functions, for example
`paths::lemma_joined_path_within` (an accepted relative path stays under the
workspace root) and `doctor::lemma_doctor_fails_when_not_allowlisted`.
