# coda

Finds ctrace session logs that never got a summary, and renders the missing
ones. Each log in `~/.cache/ctrace/sessions/` is classified as `Settled`
(summary present), `Fresh` (missing, but younger than the grace period),
`Orphaned` (missing and old enough to be real debt) or `Active` (the log
being written right now).

The library in `src/` is written in Verus and proved against its contracts:

- `sweep` — the classification of raw log observations into a `SweepPlan`,
  with the laws it keeps (tallies partition the logs, summarized logs are
  never orphaned, the active log is never touched, debt persists as time
  passes, rendering every orphan clears the debt, the sweep is
  deterministic).
- `close` — the decisions of `coda close`: which store, which renders
  (`--limit`), how render results add up, what is printed, the exit code.
- `store` — `RawLog`, the `LogStore` trait, `FakeStore`, and `FsStore`: which
  directory entries are logs, where their summaries live, the path order of
  the result, the render command and its errors.
- `config` — `CodaConfig`: defaults, merging of `coda.toml` settings
  (`grace_secs`, `sessions_dir`), `~` expansion, command-line overrides.
- `resolver` — the active log named by `ctrace status` JSON.
- `report`, `boot`, `text` — the exact text `coda plan`, `coda audit` and
  `coda boot install` print.
- `paths` — the `std::path` operations the library relies on.

`app/` is the `coda` binary (`plan`, `audit`, `close`, `boot install`): the
command line, reading the config file and the sessions directory, running
`ctrace status`, the render command and `systemctl`, and printing. Every
command exits 1 when any log is `Orphaned` and 0 otherwise.
