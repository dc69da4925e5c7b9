# tmux-expose

A Mission Control-style picker for tmux sessions: every session is a card with
a live preview of its active pane, arranged in a grid that fits the terminal.
Typing filters the cards with a fuzzy search; the zoom key (`z` by default)
shows the windows of the selected session; Enter or a click switches the tmux
client to the chosen session or window. A `--vim` mode moves with `hjkl` and
searches with `/`.

Layout:

- `src/` is the library, written and proved with Verus: the picker's state and
  operations, key and mouse handling, the parsers for tmux's listings and pane
  captures, the grid geometry, card styles, footer hints and ANSI styling, and
  the decisions of the main loop, each with its specification, plus proofs of
  properties that relate several operations (`src/properties.rs`).
- `app/` is the program around it: command-line options, the tmux commands,
  the terminal and the drawing with ratatui.
- `tests/` runs the library on concrete cases.
