# codex_island_core

The core of Codex Island, a macOS floating island that shows the state of
local Codex sessions (idle, working, needs attention, completed), verified
with Verus.

- `src/` is the library: process and thread discovery from `ps`, `lsof`, AppleScript and
  `sqlite3` output; the session store and what the island shows of it; hook
  events and the hook configuration; replies to sessions over the app server's
  JSON-RPC and the desktop app's IPC frames; window sizing. Verus proves the
  contracts of its functions; the few calls into serde_json, chrono, uuid and
  std (clock, lower-casing, `String::push`) are trusted wrappers whose
  contracts say what those crates document, the functions that only read
  the clock (such as `now_unix_ms`), and `notify_attention`, which does
  nothing, carry no contract. The public proof functions named `lemma_*` state the laws that
  hold across calls.
- `tests/` runs the library on concrete values.
- `app/` is the command-line bridge around it: process spawning, files,
  sockets and the JSON output.
