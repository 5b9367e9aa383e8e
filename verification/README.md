# herdr-palette

A command palette for the herdr terminal multiplexer: one picker over
herdr's built-in operations, the actions of installed plugins, and the
user's own commands and prompts.

- `src/` is the verified library (Verus). It holds the palette's logic:
  reading the user's `config.toml` and the catalog header, building and
  ordering the picker rows, fuzzy filtering and drawing the screens,
  the key handling of the picker and the line editor, resolving a catalog
  command's arguments step by step, the main session from the picked row
  to its end (a state machine, `session`), launching user commands, sending
  prompts, dispatching plugin actions and following their runs, and the
  `open` and `run` subcommands' decisions. Each public function states
  what it returns in its contract; the laws of the library are public
  proof functions (`lemma_*`).
- `app/` is the executable around it: the environment, files, processes,
  the terminal (ratatui/crossterm), the socket, and serde's decoding of
  `commands.json`. It runs the session's loop: it performs each
  action the library returns and hands back what came of it.
- `tests/` runs the library on concrete values.
