# eddy

Logic of a modal code editor that talks to xi-editor — undo bookkeeping,
cursor motion, line caches, key bindings and the update plans between core
and frontend — written in Verus: each function carries a
`requires`/`ensures` contract that Verus proves. Drawing and windowing are
not part of the library.

## Layout

- `src/` — the verified library.
  - `kinds`, `selection`, `actions`, `client`, `annotations`, `rpc/` — the
    data exchanged between the editing core and the frontend.
  - `text` — the buffer text, an xi-rope `Rope` behind trusted wrappers
    whose contracts speak of the text's bytes.
  - `line_offset`, `movement` — lines and columns of a text, and how a
    motion moves a selection region.
  - `view` — what a view sends to the frontend: the cursors, selections and
    styles of a line, the update plan for the frontend's line cache, and
    which lines a selection or style change invalidates.
  - `editor` — undo groups, undo/redo and reloading over xi-rope's engine.
  - `event_context`, `utf16`, `render` — action targets, UTF-16 counting,
    texture blits and quad index buffers.
  - `frontend/` — the frontend's line caches and how it handles the core's
    messages, key and mouse bindings,
    command-line parsing, the actions a view turns into edits, and the
    editable text and status widgets.
- `tests/` — tests of the library on concrete values.
- `app/` — the program around the library: window and input events,
  the in-process xi core and its channels, JSON conversion, profiling.

Laws that span several functions (undo then redo, line-cache windows,
typing then deleting) are public proof functions beside the functions
they speak of, named `law_*`.
