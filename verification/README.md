# Aperture

Aperture is a read-only observer of coding-assistant sessions (`claude_code`
and `codex`). It tails the transcripts those tools write, optionally takes
metadata from their hooks, and keeps a live view of every session: what it
is doing, whether it waits on a permission or a question, and when it was
last seen. It never starts, resumes or writes to a session.

## Layout

- `src/` is the library: the project's logic, written and verified in
  Verus. Calls into the standard library and outside crates that Verus
  cannot read go through small wrappers whose contracts are trusted:
  - `model`, `state`: the session model and the store, with its reducers,
    snapshot order, idle eviction and restore policy.
  - `passive`, `tail`: the transcript adapters, the reducer that folds
    their observations in, per-file read cursors, record framing, and the
    per-provider health line.
  - `hook_bridge`, `hook_payload`: the optional hook helper's record
    format, the spool reducer and its admission rules, and the legacy hook
    payload.
  - `installer`: installing and removing the hook entries in the provider
    settings.
  - `transcript`: backfill summaries of stored transcripts.
  - `db`: persisted rows, the write-skipping caches and migration steps.
  - `commands`: the storage health line and navigation lookups.
  - `clock`, `paths`, `text`, `keyed`: time, paths, text and keyed-vector
    helpers with their lemmas.
- `app/` is the program around it: the SQLite database, file discovery and
  reading, the hook spool on disk, the file watcher, the loopback hook
  listener, and the command line (`serve`, `observe`, `hook`, `install`,
  `uninstall`, `backfill`, `open`, `reveal`).
- `tests/` exercises the library on concrete values.

The laws the library keeps are stated as public proof functions beside the
functions they speak of (for example `state::restore_never_makes_sessions_live`,
`installer::removal_undoes_install`, `tail::exported_cursors_restore`,
`db::summaries_saved_are_current`).
