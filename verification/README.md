# ri_agent

The logic of `ri`, a coding agent that runs in a terminal and behind a web server,
written and proved in Verus.

- `src/` is the library. Every item of it is verified. Loops that wait for the outside
  world (agent runs, tool calls, the supervisor, shutdown) are machines: a function takes
  the state and what happened, and gives the next state and what to do.
- `tests/` runs the library on concrete values.
- `app/` is ordinary Rust around the library: arguments, HTTP, the terminal, processes,
  and the stores of the agent core (`ri`, `ri_ai`, `ri_tools`).

| Module | What it holds |
| --- | --- |
| `model`, `events` | messages, contexts, and the events of a run |
| `agent`, `run`, `run_laws`, `run_trace` | the agent loop |
| `survey`, `graph`, `graph_laws` | the context graph: gathering, walks, diffs, listings |
| `tools`, `tool_calls`, `schemas` | the tools that work on sessions and contexts |
| `sessions`, `requests`, `title`, `auth`, `sse` | the server |
| `watch`, `shutdown` | rebuilding and restarting the server |
| `tui`, `screen`, `cli`, `rpc` | the terminal |
| `includes`, `log`, `json`, `text`, `clock` | what the others are made of |

What the library takes on trust of other crates stands in `json`, `log`, `screen`,
`clock` and `text`, with a note at each item.
