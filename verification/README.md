# agent-browser

Browser automation for AI agents: a Chrome session driven over CDP, exposed
as an MCP server (stdio) and as an HTTP API.

- `src/` is the verified library. Every decision the servers make is taken
  here and proved against its contract with Verus: the accessibility
  snapshot (reference numbering, tree building, frames, compaction, search,
  diffs), the stale-reference checks, the network policy (schemes, origin
  patterns, private networks, block rules), paths and file roots, keys and
  shortcuts, the scripts sent to the page, the pointer drag protocol, MCP
  routing, tools, prompts, resources and tasks (with their RFC 3339 times), the HTTP request handling,
  CLI and SSE framing.
- `app/` is the program around it: Chrome through chromiumoxide, the stdio
  loop of the MCP server, the axum HTTP server, DNS lookups and the file
  system. It asks the library for each decision.
- `tests/` exercise the library on concrete values.
