# Immich Auto Uploader

A Windows tray application that runs the Immich CLI (`immich upload --watch`)
once per watched folder, shows the CLI's output as plain log lines, restarts
failed watchers, and keeps its settings in a JSON file.

Layout:

- `src/` is the verified library (Verus):
  - `text` — Unicode whitespace, `trim`, decimal rendering, string building.
  - `config` — the settings, their defaults, and what a load attempt yields.
  - `ansi` — terminal output to display lines (escape sequences parsed by `vte`).
  - `process` — the upload command line, log events, the watcher's restart
    decisions, and the forwarding of a child's output.
  - `cli` — reading the answers of `immich --version` and `immich login`.
  - `logbuf` — the bounded per-folder log.
  - `idmap` — a small map keyed by folder identifiers.
  - `session` — the window's state and how events and user actions change it.
  - `labels` — texts of a folder's row and editor.
  - `winstyle` — the sign-in registration value and the taskbar window style.
- `app/` is the program around it: the egui window, the tray, the Tokio
  runtime that spawns and waits for processes, the registry, and file I/O.
- `tests/` exercises the library, linked with the real outside crates.
