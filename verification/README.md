# Codex Titlebar Meter — verified core

Shows the Codex quota (remaining percentage and reset time of each window
reported by the local `codex app-server`) in Chinese or English.

- `src/` is the verified library (Verus):
  - `text.rs` — Unicode white space, trimming, searching, decimal rendering;
  - `model.rs` — quota windows and snapshots;
  - `locale.rs` — language detection from Codex's `config.toml` and the
    system locale, and every text shown in the title bar;
  - `codex.rs` — reading quota windows out of app-server replies, matching
    replies to requests, and when a session reads the quota again;
  - `worker.rs` — the reader's state machine and the order in which the
    installed Codex Desktop packages are tried.
- `app/` is the program around it: processes, pipes, JSON, files,
  environment, the Windows locale API and the output.
- `tests/` runs the library on concrete inputs.
