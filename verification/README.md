# mediadir

The core of a media upload server and of the watcher of its storage tree,
written in Verus: every function under `src/` carries a contract that
Verus proves.

- `src/text.rs`: splitting and matching text, the base of the routing and
  cookie logic.
- `src/routes.rs`, `src/auth.rs`, `src/errors.rs`, `src/models.rs`: which
  handler a request reaches, sessions and passwords, error answers, and the
  stored documents.
- `src/upload.rs`: the target of an upload, file names, the write buffer
  and the state machine that writes a multipart body to files.
- `src/changes.rs`: what the watcher makes of an event: the handler that
  runs, the change it reports, the renames it makes itself and skips once,
  and what the object store and the listener do with a change.
- `src/rate_limit.rs`, `src/rename_control.rs`, `src/skip.rs`,
  `src/watcher.rs`, `src/sync.rs`, `src/notify_table.rs`,
  `src/storage.rs`, `src/permissions.rs`: the storage watcher's token
  buckets, rename timers, skip lists, event decisions, database
  reconciliation, notification tables, settings and cache keys.

`app/` is the server around the library: the listener, the HTTP plumbing,
MongoDB, templates and file I/O, and a driver that performs the watcher's
decisions in order (`app/watch_driver.rs`).  `tests/` runs the
library on concrete values.
