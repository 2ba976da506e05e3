# MCP framework

A service that starts MCP tool servers over stdio, discovers their tools, offers them for
registration under the names `mcp.<serverName>.<remoteToolName>`, and forwards calls to them.

- `src/` is the library, verified with Verus: the decisions, the messages and the reports.
- `app/` is the program around it: HTTP, processes, files and the log.
- `tests/` run the library from outside.

| module | what it holds |
|---|---|
| `text` | decimal numbers, trimming, shortening, ordering of texts |
| `table` | tables from names to values |
| `json` | JSON documents, and the calls into `serde_json` |
| `error`, `answers` | errors, and the answers to HTTP requests |
| `args`, `logs` | command line and environment; log records |
| `config` | configurations, and what may be shown of them |
| `tools`, `registry` | tools and their exposed names; what is loaded, and where calls go |
| `session`, `startup` | the conversation with a server, and bringing one up |
| `loader` | loading a configuration |

`POST /mcp/load` replaces what was loaded before. Where servers were asked for and none came up,
what was loaded before stays. A server's standard error is discarded.

Where two servers expose one name (`a` with the tool `b.c`, and `a.b` with the tool `c`), calls go
to the one that was loaded later.
