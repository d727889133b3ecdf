# windbgr-mcp

An MCP server that exposes Windows process discovery and `cdb.exe`
debugging sessions to MCP clients, over stdio or Streamable HTTP.

## Layout

- `src/` is the library, verified with Verus: the output ring buffer and
  its pagination offsets, cdb prompt recognition and command-output
  cleaning, cdb argv assembly, the per-session state machine (one step per
  event: output, command, control, timeout, exit, stop), the session table
  and its admission limit, configuration resolution (allowed hosts, bearer
  token, cdb path), module matching and the discovery pipeline, the tool
  catalog, and the classification of Win32 outcomes.
- `app/` is the program around it: the command line, the TOML file, the
  audit log, the Win32 calls, the tokio actor that runs each cdb child and
  feeds its events to the library, and the rmcp / axum transports.
- `tests/` exercises the library on concrete values.

Each public function of the library states its result in its contract;
the properties that span several calls (reading back what was written,
output pages that continue where the last one ended,
lookups after registration and removal, prompt detection after any
output, sessions that stay stopped) are stated and proved as `law_*`
proof functions next to the code they are about.
