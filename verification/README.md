# drill

A coding agent for the terminal: it talks to a local GGUF model through a native
runtime or to a remote vendor, runs tools for the model, leads a team of agents,
and keeps what was said.

- `src/` is the library: everything that decides or computes, with contracts that
  Verus proves. Terminals, files, the network, the native runtime and floating
  point stay outside; the library is told what they answered and says what to do
  next.
- `app/` is the program around it.
- `tests/` runs the library on concrete values.

## Modules

| Modules | Subject |
|---|---|
| `text`, `json`, `error` | texts, JSON values, errors |
| `chat`, `agents`, `turn`, `manager`, `orchestrator`, `tool_text` | turns of agents and of the team |
| `tools`, `fetch` | what tools do, and when they may |
| `config`, `provider`, `cli`, `agent`, `messages` | configuration, providers, the worker |
| `wire`, `cloud`, `stream` | requests to vendors and their streams |
| `mention` | images that a message mentions |
| `native`, `runtime`, `sst`, `image`, `inference`, `listen` | the native runtimes and the programs on them |
| `history` | stored sessions |
| `keys`, `editor`, `popup`, `form`, `provider_ui`, `screen`, `highlight`, `render`, `overlay`, `ui`, `ui_keys` | the screen |

What is believed without proof stands beside the calls into `serde_json`,
`base64`, `similar` and `syntect`, each with a comment that says what is claimed.
