# floating_memo

The core of FloatingMemo, an always-on-top desktop memo backed by SQLite,
written in Verus.

- `src/` is the verified library: note and settings records, the decisions
  the SQLite stores take around their queries (default note, save checks,
  how stored flags read), the schema migration plan with its laws
  (idempotence, reaching the latest version, only adding), backup rotation
  (which files a rotation deletes, with the law that exactly the newest
  five backups stay), data-directory paths, and the window, tray and
  hotkey decisions of the shell.
- `app/` is the Tauri shell around it: IPC commands, SQLite access,
  file-system work and window handling. It performs what the library
  decides.
- `tests/` runs the library, partly against real SQLite databases.
