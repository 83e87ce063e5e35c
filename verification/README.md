# codex-mcp-server

An MCP server that wraps the Codex app-server: it exposes `start`, `reply`, `process`
and `archive` tools and `project://{project_id}` / `thread://{project_id}/{thread_id}`
resources, and keeps a local execution trace for each Codex thread.

## Layout

- `src/` — the library, verified with Verus:
  - `resources.rs` — resource URIs, project ids (FNV-1a of the normalised cwd,
    URL-safe base64) and legacy long ids, URI parsing;
  - `codec.rs` — the base64 (`base64` crate) and UTF-8 (std) calls;
  - `text.rs` — character-level helpers (trim, truncation, decimal, ASCII lower case);
  - `state.rs` — thread records, trace steps, turn events and updates;
  - `registry.rs` — the registry of threads and projects;
  - `sync.rs` — records from remote summaries and payloads, paged thread-list sync;
  - `approval.rs` — approval policy, decisions and trace entries;
  - `server.rs` — following a streamed turn, project resource listings.
- `app/` — the binary: stdio MCP service (`rmcp`), Codex client (`codex-app-server-sdk`),
  serialisable copies of the record types, and conversions from SDK values.
- `tests/` — tests of the library.

Environment: `CODEX_MCP_APPROVAL_POLICY` = `approve` (default) | `session` | `deny`.

## Registry representation

The registry keeps threads and projects in `Vec`s of entries with distinct keys rather
than in `HashMap<String, _>`. vstd specifies std's `HashMap` only for key types it
knows to obey its key model (integers, `bool` and the like, not `String`), and its
`StringHashMap` offers neither iteration nor mutable access to a stored value, both of
which the registry needs (listing projects, updating a record in place). So the maps are
association lists whose views are `Map`s and `Seq`s. As a consequence `list_projects`
returns projects in the order they were first stored.
