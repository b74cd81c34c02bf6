# progression

Asynchronous multi-line progress bars for the terminal, with proved contracts.

- `src/` is the library. `multi_bar()` returns a `MultiBarHandle`, through which bars are
  added and controlled, and a `MultiBarFuture`, the runner that redraws them. A poll of the
  runner is split in two: `poll_begin` takes new bars and waiting parties, retires finished
  bars and renders a frame; `poll_end` tells the waiting parties and restarts the redraw delay.
  - `field`: the per-bar flag word.
  - `text`: decimal numbers, repeated cells, right-aligned names.
  - `render`: the lines of the boring bar and the braille bar, with their laws.
  - `frame`: which bars leave the stack, and the text of one frame.
  - `draw`: the two bar kinds, their builders, handles and drawers.
- `app/` is the async plumbing: `Future` impls over the runner and over `WhenDone`, and the
  write of each frame to standard error.
- `tests/` runs the library: exact lines, frames, and whole redraw cycles.
