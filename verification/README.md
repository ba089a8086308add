# anna_rs

The runtime of Anna, a workflow language in YAML for system tasks and language
model stages. The library holds the runtime's logic, with a contract on every
function that Verus proves; the program around it does the reading, writing,
waiting and sending.

## The library, `src/`

| module | what it is about |
|--------|------------------|
| `text`, `order`, `number`, `ranking`, `strmap`, `paths` | texts, their order, numbers, sorted lists, maps and sets of texts, file paths |
| `json` | JSON values, read and written by `serde_json` |
| `workflow`, `expr` | workflows and their validation, substitution and conditions |
| `result`, `session`, `memory`, `report` | what a run leaves behind |
| `executor`, `attempt`, `fanout`, `worktree`, `run` | how a run goes, as a state machine: `Run::start` and `Run::step` |
| `allowlist` | which providers are allowed |
| `providers` | what each provider runs or asks, and what its answer means |
| `daemon` | flows, limits, triggers, sessions, chat intents, policy and audit of a daemon |
| `policy_crypto`, `policy_sync` | policy revisions, their signatures, and local copies |
| `client`, `mcp` | what a client and a tool server ask a daemon |

A type has a view (`ResultView` for `RunResult`, and so on) in which its
contracts speak. Properties that span functions are public proof functions, such
as `run::laws::bounded_runs_end`, `expr::outputs::output_is_one_value`,
`daemon::limits::launches_keep_to_limits` or `providers::vault::get_after_put`.

What `serde_json`, `humantime`, `cron`, `shell-words`, `hmac`, `sha2` and `rand`
do is stated, not proved, in the few functions that call them. Each such function
says in its doc comment which call it makes and what it claims of it.

## The program, `app/`

`main.rs` reads the command line. `engine.rs` carries out the actions of a run,
`provide.rs` runs providers, `server.rs`, `handlers.rs` and `scheduler.rs` are the
daemon, `remote.rs` is the client and `stdio.rs` the tool server. `docs.rs` and
`daemon_docs.rs` hold the types that are read from YAML and JSON.
