# sekio-gui

The logic of a Quick-Look style file previewer, written and proved in Verus, and a
thin program around it.

`src/` is the library. Its functions are verified against their contracts, all but the
few that only make a call to another library or to std: the contracts of those are
trusted, and their doc comments say what of.

- `app` is the window as a state machine: what is on screen, what keys, clicks and
  answers do to it, and the commands that come out. `app/model.rs` says what each
  step is, `app/laws.rs` what holds of all of them.
- `state`, `browser`, `recent`, `scan`, `table`, `style`, `fonts` and `icon` are the
  parts of the window.
- `config` is the settings: three layers, and a rewriter that changes one value of a
  TOML file and leaves the rest of it alone. `config/reading.rs` says what such a file
  means, and that a saved setting is read from it.
- `hotkey` reads and writes key combinations.
- `daemon` is how a second process hands its path to the first.
- `selection` finds the file that is meant by what a desktop has selected.
- `cli`, `console`, `dialog` and `doctor` are what the program says of itself.
- `path`, `text` and `probe` are the vocabulary of the others. A path carries the
  platform it is of, Unix or Windows, and is taken apart and joined by its rules.

Facts that relate several functions are proof functions whose names begin with `law_`.

What is outside is met in two ways. A call that only computes stands behind a small
trusted function with a contract. What is read from the disk or asked of the system is
an argument, or the answer of a closure that may say anything.

`app/` is the program: the command line, files, sockets, threads and painting.
`tests/` runs the library.
