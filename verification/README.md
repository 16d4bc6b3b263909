# crytter

The core of a browser terminal emulator, verified with Verus.

`src/` is the library:

- `grid`, `cell`, `attr`, `cursor`: the cell grid with its bounded
  scrollback, cells, attributes and the cursor;
- `model`: the abstract terminal state (`TermView`) and what every parsed
  action does to it;
- `term`: the terminal state machine, proved to follow `model`;
- `laws`: properties spanning several actions (batching, the alternate
  screen);
- `keymap`, `palette`, `selection`, `search`, `links`: keyboard encoding,
  colors, mouse selection, scrollback search and URL detection;
- `frontend`, `view`: what the browser front end and the canvas renderer
  compute from the terminal state;
- `text`: decimal digits, UTF-8 and string helpers.

`app/` holds what Verus does not see: the `vte`-driven parser, the Canvas2D
renderer and the `wasm-bindgen` API. `tests/` exercises the library.
