# wg_commands

The decision logic of the `wg` task-graph commands, written in Verus and
proved against its contracts: archival (manual and guarded automatic),
agency CSV import and export, chat runtime status and reload, the chat
agent's stream and transcript, checkpoints, cleanup, agent assignment caps,
failure telemetry and adaptive review bookkeeping.

Layout:

- `src/` — the verified library, one module per command area, with the
  shared text, ordering, clock, hashing and JSON primitives. Calls into
  outside crates (sha2, hex, blake3, csv, chrono, serde_json, dirs) stand
  behind small trusted wrappers whose contracts name or state what the
  call returns. Laws that relate several functions are public proof
  functions named `law_*`.
- `tests/` — tests of the library on concrete values.
- `app/` — the edges that Verus does not see: files, git, the clock, the
  agent's output stream, and the serde and clap copies of library types.
