# porrima

The verified core of the Porrima desktop music player, written in Verus.

- `src/` is the library. Its functions carry `requires`/`ensures` contracts
  that Verus proves, apart from the small trusted wrappers around outside
  calls, whose contracts are believed (see below). It holds the play-queue state machine
  (`player`, `shuffle`, `clock`), its bridge to the playback engine (`engine`,
  `controls`), CUE sheet parsing and where each parsed track comes from (`cue`, `cue_lines`), the media and settings models
  (`track`, `models`, `settings`, `media`, `paths`, `text`), and the decision
  logic of the library catalogue, scanning, lyrics, covers and online lookups
  (`catalog`, `library`, `browse`, `lyrics`, `cover`, `online`, `metadata`,
  `payloads`). Calls into outside crates and into std functions that vstd does
  not specify go through small trusted wrappers. Each wrapper has a doc
  comment saying what its contract claims.
- `app/` is the unverified shell around it: file and network I/O, SQLite
  storage, tag reading and the image work that uses floating point. It drives
  the library's step functions: `library::scan_step` for directory scans and
  `library::import_step` for importing opened files.
- `tests/` runs the library on concrete inputs.
