# CoCoMiro

An infinite canvas with sticky notes, running in the browser.

- `src/` is the `cocomiro` library, verified with Verus: the parser of the
  notes' inline formatting, the tokenising of note text into lines, words and
  spaces, the note collection (lookup, selection, deletion, which note is on
  top), the front end's note reducer, the sign-in state, the decisions taken
  on keys, presses and moves, the error messages, and the page markup.
- `app/` is the browser shell around it: it reads the browser's events, does
  the floating-point geometry (pan, zoom, note positions, resizing), draws on
  the canvas, builds the note editor, runs the component front end and the
  health-check server.
- `tests/` exercises the library on concrete values.
