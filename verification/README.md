# codex-session-selector

Indexing, searching and replaying local Codex session logs (`~/.codex/sessions/YYYY/MM/DD/*.jsonl`).

## Layout

- `src/` — the library, written in Verus; every function carries a contract that Verus proves.
  - `text`, `json`: text helpers and the JSON value model (parsing is done by `serde_json`).
  - `session`, `exec_events`, `session_event`: reading a session log into its row, its first
    user message, its command executions and its messages.
  - `search`: the query language of the selector and its compilation to SQLite FTS5 match
    expressions.
  - `indexer`, `refresh`, `store`, `schema`: the decisions of an index refresh (mode, scan
    classification, the rows and exec events it writes and how it reports them, the
    exec-event diff, the full-text document of a session) and the schema, with the check of an
    existing database's catalog against it.
  - `cli`, `application`, `legacy`: command lines, help texts and the arguments handed to
    external commands.
  - `selector`, `legacy_selector`, `replay`, `ui_state`, `ui`, `listing`: the interactive
    views as state machines (key press in, new state and requested action out) and the text
    they display.
- `app/` — the program around the library: terminal drawing, files, SQLite and the clipboard.
- `tests/` — tests of the library, some of them against a real in-memory SQLite database.
