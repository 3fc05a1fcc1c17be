# agentlite

A mini tool-calling chat agent. The model is reached over an OpenAI-compatible API
(DeepSeek by default); it may call built-in file and shell tools and tools of MCP servers.
Each tool call is written as one JSON line to an audit log.

- `src/` is the library, with its contracts and proofs:
  - `agent` — the conversation and what each model reply leads to (finish, or run tool calls);
  - `catalog` — tool backends, MCP tool naming and routing, catalog assembly without duplicate
    names, which backend answers a call, shutdown;
  - `local`, `tools` — the built-in `Read`, `Write`, `Bash` tools: definitions, actions, replies;
  - `openai` — `tools[]` entries as JSON text;
  - `audit` — status and preview of results, audit records (start time as one instant, in epoch
    milliseconds and RFC 3339), log location and daily file names;
  - `session`, `config` — session id, MCP configuration path from the environment, and the
    transport of each MCP server (a local command, or streamable HTTP when `url` is set);
  - `text` — string helpers.
- `app/` is the program: command line, HTTP requests to the model, files, processes, MCP
  connections and the audit log file.
- `tests/` runs the library on concrete values.

Configuration (environment): `DEEPSEEK_API_KEY` (required), `DEEPSEEK_BASE_URL`,
`AGENTLITE_TOOL_LOG` (unset: daily files under `logs/` beside the executable; `disabled` or `0`:
off; a directory or `.log` file otherwise), `AGENTLITE_MCP_CONFIG` (JSON file listing MCP
servers: `command`, `args`, `env` for a local server; `url`, `headers`, `bearer_token` for a
remote one), `AGENTLITE_SESSION_ID` (fixed session id; a random UUID otherwise).

Usage: `agentlite -p "your question or task"`.
