# garshot

Screenshots for X11: full screen, monitors, windows, regions given as
geometry, and regions selected interactively over a blurred copy of the
screen; PNG, JPEG, WebP, PPM and PAM output; a daemon answering JSON requests
on a Unix socket, and its command-line client.

## Layout

- `src/` is the library, verified with Verus. Each public function states in
  its contract what it returns or how it changes its arguments.
  - `region`: geometry strings, clipping to the screen, window and monitor
    regions, monitor lookup and ordering.
  - `pixels`: BGRA/RGBA conversion and cursor blending.
  - `blur`: the three-pass box blur of the selection overlay.
  - `selection`: the selection state machine; `overlay`: how the overlay
    sends images and places its size label.
  - `capture`: clipping plans, capture results, window and active-window
    choices, shared-memory sizes.
  - `encode`: PNG, JPEG and WebP through the `png` and `image` crates,
    PPM and PAM written directly, base64 text.
  - `config`, `naming`: settings, colours, `~` expansion, file name tokens.
  - `ipc`, `daemon`, `cli`: the protocol types, the daemon's decisions and
    responses, and the command line's.
  - `annotate`, `tools`, `history`: the annotation editor's key handling,
    window placement, the drawing tools' input handling, and undo/redo
    history.
  - `text`: string and number helpers with the standard library's
    semantics.
- `app/` is the program: X11 requests, shared memory, the socket server, files,
  the clock, clipboard and notification tools, and the serde forms of the
  library's types. Started as `garshotctl` it is the daemon's client.
- `tests/` runs the library on concrete inputs.
