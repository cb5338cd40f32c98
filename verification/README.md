# oldpilot

The verified core of `oldpilot`, a helper around the GitHub Copilot CLI that
offers the `suggest` and `explain` workflows.

- `src/` is the library, checked by Verus: the configuration file format
  (`config`), the values in effect (`values`), executable lookup (`lookup`),
  prompts and Copilot CLI arguments (`prompt`), key handling (`keys`), what
  becomes of a suggested command (`suggest`), the
  settings screen as a state machine (`settings`), the `doctor` report
  (`doctor`) and character-level text helpers (`text`).
- `app/main.rs` is the program: command-line parsing, environment variables,
  files, processes, the clipboard and the terminal screens. It reads and writes,
  and asks the library what to decide.
- `tests/` runs the library on concrete values.
