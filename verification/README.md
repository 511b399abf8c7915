# git_ai_daemon

The decisions of the git-ai daemon as a verified Verus library: how trace frames of git
are put in order, which commands and checkpoints are worked off when, what follows from a
command for working logs and notes, how much is accepted, and when the daemon waits,
restarts or ends.

- `src/` holds the library. Every function states what it returns or changes, and Verus
  proves it. Public proof functions named `law_*` state what holds across functions.
- `tests/` runs the library on concrete values.
- `app/` is ordinary Rust around it: sockets, threads, files, the database and the clock.
  What only the rest of the program can do comes in through `host::Host`.

The calls that are believed rather than proved are few. Each stands behind a small function
marked `#[verifier::external_body]`: SHA-256 digests, glob patterns, RFC 3339 times, and
JSON texts.

## Layout of `src/`

| Modules | What they decide |
| --- | --- |
| `text`, `paths`, `spelling`, `keyed` | texts, paths and how they are spelled, and maps by text |
| `trace`, `frames`, `ingress`, `ingest`, `fence` | trace frames, the roots they belong to, and for how long an open root holds others back |
| `commands`, `sources`, `rewrite`, `pending` | what a command moved, and which history it rewrote |
| `questions`, `side_effects`, `event_effects`, `effect_run`, `working_logs` | what git is asked about a command, and what follows from it, step by step |
| `checkpoint`, `quota`, `bash_calls` | checkpoints, the room they take, and shell calls |
| `sequencer`, `drain`, `drain_schedule`, `effects` | the order in which a family is worked off, and what is noted of it |
| `control`, `coordinator`, `settle`, `waits` | connections, the state as a whole, and waiting for it to come to rest |
| `config`, `lifecycle`, `restart_budget` | where the daemon keeps its files, and its start and end |
| `repo_state`, `repo_family_store`, `untraced_fixup_ignore` | repositories, the families that are remembered, and those that are ignored |
