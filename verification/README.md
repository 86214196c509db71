# codex_web

The verified core of a Codex browser daemon, written in Verus.

- `src/` is the library. Every function in it carries a `requires`/`ensures`
  contract that Verus proves: the daemon configuration, its validation and
  what saving it writes, browser session cookies, restart-recovery
  bookkeeping, the replayable event stream, the bookkeeping of the link to an
  app-server (which JSON line answers which request), Markdown rendering with
  raw HTML escaped and unsafe link targets removed, the presentation decisions
  of the web views, the dashboard's grouping of sessions and projects, the
  directory picker's ordering, and the multi-step server flows (walking loaded
  threads, changing the SSH tunnel, switching and falling back between
  accounts, choosing the account at start-up) as state machines. Calls into
  outside crates (base64, hmac, sha2, constant_time_eq, rand, url,
  urlencoding, serde_json, pulldown-cmark) and into `std::path` sit behind
  small trusted wrappers whose contracts are stated in their doc comments.
- Maps and sets keyed by text (pending requests, recoverable sessions, saved
  turn settings) are held in `TextMap` (`src/text_map.rs`): a vector kept
  sorted by key, with a `Map` view and the invariant that keys are strictly
  increasing. vstd gives `HashMap` and `HashSet` usable contracts for keys such
  as integers; a `String`-keyed `HashMap` was not tried in this crate.
- `tests/` runs the library on concrete inputs.
- `app/` is the program around it: the command line, file I/O for the token,
  `daemon.toml` and `recovery.json`, the SSH tunnel and app-server processes,
  and directory listing.
