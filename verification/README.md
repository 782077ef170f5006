# voice2md

Turns voice notes and recorded classes into structured Markdown for
Obsidian, Logseq or plain text: `audio → Whisper → transcript → formatting →
Markdown`. It ships a command-line tool (`voice2md`) and a Telegram bot
(`voice2md-bot`).

## Layout

- `src/` — the library, verified with Verus: the value objects, the note and
  its stages, the default formatter, the processing pipeline as a state
  machine (download, transcription, formatting, storage, with its limits and
  errors), the bot's access control and command decisions, the storage paths
  of the bot and of the command-line tool, the configuration, and the command
  lines and replies of the Whisper engines. Calls into `chrono`, `uuid`,
  `dashmap` and a few std functions stand behind small trusted wrappers whose
  contracts are documented beside them.
- `app/` — the programs around the library: argument parsing, file and
  network I/O, child processes, the async runtime, the worker pool and the
  Telegram dispatcher. Each performs what the library decides.
- `tests/` — tests of the library on concrete values.

## Dependencies

`takecell` is not called by this project. `teloxide-core` depends on it, and
the line in `Cargo.toml` holds it at 0.1.1, the last release that builds with
the Rust version the project declares (`rust-version = "1.95"`); 0.1.2 asks
for a newer compiler.
