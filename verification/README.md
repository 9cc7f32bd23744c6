# rkanban

A keyboard-driven Kanban board for the terminal, with its editing logic
verified in Verus.

- `src/` — the verified library:
  - `text.rs`: UTF-8 byte view of strings (character boundaries, byte
    offsets), whitespace trimming, splitting, tags, and the few `std`
    string operations used (as trusted wrappers);
  - `board.rs`: cards, columns, and the mathematical board (`BoardView`)
    with every board operation and the laws relating them;
  - `app.rs`: the editor state (`App`) and the board operations on it;
  - `editing.rs`: cursor movement, typing and backspace in the popups;
  - `input.rs`: what each key does in each mode;
  - `config.rs`: key bindings, colours, and the INI configuration text;
  - `view.rs`: labels, hints and cursor placement for drawing.
- `app/` — the terminal program: terminal setup, the event loop, reading
  the configuration file at startup (written with the defaults on first
  run), reading and writing the JSON board file, and drawing with ratatui
  in the configured colours.
- `tests/` — tests of the library on concrete values.
