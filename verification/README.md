# ark

The planning core of the `ark` package manager, verified with Verus.

`src/` is the library. Its functions carry `requires`/`ensures` contracts over
mathematical views (`Seq`, `Map`, and a view type for each data type), and
Verus proves each body against its contract. The few functions that write to,
read from, or ask the system clock say only what holds whatever the outside
world answers; the text they send and the decisions on what comes back are
verified functions of their own (`prompt_line`, `confirm_reply`,
`timestamp_of_reading`):

- `cli` — command-line arguments to an `ArkCommand`, and which commands ask
  for confirmation.
- `plan`, `report` — install and removal plans built from what the package
  resolver found, and the reports and results shown for each command.
- `db` — the installed-package database: registration, lookups, integrity
  checks, and the dependency-ordered install order (with cycle detection).
- `txlog` — the transaction log: begin, operations, commit, rollback, failure,
  and replay of transactions read back from disk.
- `config`, `output`, `error`, `text`, `source`, `clock`, `confirm` — the
  configuration, formatted output, errors, string helpers and the rest.

Public proof functions named `law_*` state properties that hold across
operations (for example, that a committed or rolled-back transaction never
changes again, or that registering and then unregistering an entry restores
the database).

`app/` is the program around the library: argument parsing with `clap`, the
TOML configuration file, the transaction log file (JSON lines), prompts, and
the calls into the package resolver.
