# devproc

A development process manager with a terminal interface and a command line:
it finds the scripts of a project, starts them under generated names, keeps a
registry of the processes it started, shows their resource use and stops
them.

The crate is written in Verus. `src/` is the verified library; `app/` is the
program around it (argument parsing, files, process start-up, drawing).

## What it does

- **Scripts** are found in the project directory, in this order:
  - `package.json`: the string-valued entries of its `scripts` object, except
    those whose names start with `pre` or `post`;
  - `build.gradle` / `build.gradle.kts`: the tasks `build`, `test`, `run` and
    `clean`, run with `gradle`;
  - `Makefile`: every target declared at the start of a line (not special
    targets starting with `.`, not variable assignments), run with `make`;
  - `Cargo.toml`: `build`, `run`, `test` and `check`, run with `cargo`.
- **Commands**: `list [--format json]`, `scripts [--dir DIR]`,
  `start SCRIPT [-p PORT] [-n NAME] [-- ARGS]`, `run "COMMAND" [-n NAME]`,
  `kill NAME|PID [--signal N]`. `kill` sends the signal with the given number
  (15 by default); a number that names no signal sends `SIGTERM`.
- **Terminal interface** (run without arguments):
  - `j`/`k` or the arrows move, `Tab` switches between processes and scripts,
    `q` quits;
  - `Space` marks or unmarks the selected process, `a` marks all processes (or
    clears the marks when all are marked);
  - `d` stops every marked process, or the selected one when none is marked;
  - `i`, or `Enter` on the process list, opens the detail view of the selected
    process; `Esc` closes it, or clears the marks;
  - `Enter` on the script list starts the selected script.

## Not provided

- The filter mode (`/`) of the terminal interface.
- The `history` and `config` commands; the history and configuration types
  exist in the library, but no command shows or edits them.
