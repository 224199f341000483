# vterm

A GPU-rendered terminal emulator with workspaces, tabs and themes. The
decisions it makes are a library verified with Verus; the window, the
pseudo-terminals, the network and the files are ordinary Rust around it.

## Layout

- `src/` — the verified library (`vterm`):
  - `esc_filter` — the PTY byte filter that drops alternate-screen switches
    and marks where scrollback is cleared, across chunk boundaries;
  - `palette`, `render`, `runs` — the colour table answering OSC queries,
    the colours cells paint, and how a grid row becomes styled runs, links
    and box/block glyph rectangles;
  - `terminal` — snapshots of the grid, copying a cell range, encoding
    typed text for the shell;
  - `split_tree`, `state`, `workspace` — panes, tabs and workspaces, every
    operation on them, and the repair of a state read back from disk;
  - `keys`, `text_field` — what a keystroke does, and the rename field;
  - `theme` — the built-in themes, their names and their order;
  - `update` — release comparison, the update offer and the update workflow;
  - `proc_output`, `shell`, `text` — reading helper programs' output,
    spawn-time decisions, and text measures (UTF-8/UTF-16).
- `tests/` — tests of the library.
- `app/` — the application: window and views (gpui), PTY and emulator
  plumbing, persistence, network and process I/O, and pixel geometry.
