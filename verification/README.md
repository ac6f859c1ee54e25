# ttyamat

The verified core of a terminal emulator front end, written in Verus.

- `src/` is the library.
  - `frame` holds the grid of cells a terminal shows and the rows of text
    drawn from it, and applies full and partial render updates.
    `frame_laws` proves that the rows keep showing the text of the cells
    under every well-formed update (full updates with one cell per grid
    position, partial updates whose spans stay on their lines).
  - `capture` decides which damaged lines of a terminal grid are read and
    builds updates from what was read: one span per kept line, on the grid.
  - `tabs` is the tab list of a window (creating, closing, selecting,
    retitling tabs); `window` is what the application knows of its window.
  - `input` encodes key presses for the terminal and recognises the
    application's shortcuts.
  - `view` holds the cursor overlay and the small drawing decisions of the
    title bar.
  - `size` is the terminal size, `cell` a grid cell and the cursor, `text`
    the string helpers, `error` the session error.
- `app/` is ordinary Rust around it: the pseudo-terminal session on
  alacritty_terminal (threads, the PTY, reading the grid), the conversion of
  iced keyboard events, the window geometry in floating point, and the iced
  application.
- `tests/` exercises the library through its public API.
