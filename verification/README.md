# shatter

A cleanup tool for developer repositories: it finds disposable build
outputs, caches and dependency folders below a project path and lets you
review and remove them, in a terminal interface or from the command line.

The library under `src/` is written in Verus and holds the tool's logic with
its contracts:

- `fspath`, `text`: paths as components with the text they are written as,
  and the string helpers they need.
- `domain`, `error`, `config`: scan requests, items, totals, byte formatting,
  errors, configuration.
- `rules`: the built-in and custom rules, protected paths, marker probes.
- `discovery`, `scan`: the breadth-first walk as a state machine that the
  caller feeds with what it finds on disk, and the report it yields.
- `delete`: deleting items through a backend and accounting for each one.
- `results`, `state`, `keys`, `view`, `storage`: the terminal interface's
  model, its key handling and what its screens show.
- `cli`, `upgrade`, `version`: the command line's decisions and the
  self-upgrade's choice of release and asset.
- `laws`: properties that span several functions.

`app/` is the program around the library: argument parsing, the file
system, the terminal, threads and the network. `tests/` runs the library on
concrete values.
