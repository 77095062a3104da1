# nanobot-rs

A small personal AI agent: it keeps conversations, asks a language model for replies, runs
tools the model asks for (shell, files, patches, search, web), and answers on the terminal,
over HTTP or on Feishu.

The decisions of the agent live in a library verified with Verus (`src/`):

- `session`: messages and sessions; compaction of long sessions (`compactor`); session file
  names and listings (`store`).
- `security`: the prompt token budget (`context_governance`) and the sandbox for paths and
  shell commands (`sandbox`).
- `agent`: the turn driver (`runner`), a state machine between model calls and tool runs; the
  system prompt (`context`); preparing a session before a turn (`loop_agent`).
- `tools`: tool results, the registry, the built-in tools and MCP results.
- `provider`: what model replies and streamed chunks mean, and the failover chain.
- `cron`, `memory`, `skills`, `sync`, `gateway`, `channels`, `config`: scheduled jobs, long-term
  memory, skills, upstream tracking, the HTTP gateway's relay, channel messages and settings.
- `text`, `paths`, `clock`: text and path helpers, and the clock.

Each public function states what it returns in its `ensures`; properties that relate several
operations are public proof functions named `law_*`.

`app/` holds the program around the library: command line, configuration files, the message
bus, HTTP clients, file and process I/O, and the channels.
