# Onemore

A coding agent whose decisions are verified.

A run goes round a loop: the prompt is projected from the facts of the session, the model is
called, the tools it asks for are checked, permitted and run, and everything that happened is
stored as facts before the next round. Whatever waits on the world (the network, tools, people,
the disk, the terminal) is carried out in `app/`. Whatever is decided in between stands in `src/`
and is proved with Verus.

## Layout

| Path | What it holds |
|---|---|
| `src/message.rs`, `src/session.rs`, `src/plan.rs` | messages, the log of facts and its projections |
| `src/context/` | what goes into a prompt, and the budget that it has to fit |
| `src/provider/` | requests to the Messages and Responses interfaces, and their event streams |
| `src/tools/`, `src/hooks.rs` | what tools declare, how calls are checked, and what hooks may change |
| `src/permission.rs`, `src/nearest.rs`, `src/workspace.rs` | where paths lead, and what may be touched |
| `src/runtime/` | the agent loop: runs, batches of calls, approvals, retries, compaction, commands |
| `src/storage/` | batches of facts, rows, identifiers and preferences |
| `src/skills/`, `src/config/` | the catalog of skills and the configuration |
| `src/tui/` | the state of the terminal front end |
| `app/` | files, processes, HTTP, SQLite, threads and drawing |
| `tests/` | scenarios, among them whole runs against a host in memory |

## Reading the contracts

Each type has a mathematical view, and each function says in `ensures` what it makes of the views
of its arguments. Steps that need the world are enums: a function takes in what came of the last
step and returns the next one, so that a run is verified for every answer the world may give.
Public proof functions whose names begin with `law_` state what holds across functions: that every
tool call stored is paired with its result, that input is injected only between batches, that a
refused call never runs, that what a run shows begins with its prompt and ends with the one event
that closes it, that stored facts are read back as they were written, and so on.

Calls into other crates stand behind small functions marked `external_body`; the comment above
each says what is taken on trust.
