//! Verified core of the vterm terminal emulator: colour palettes, the PTY
//! byte filter, pane split trees, workspace state transitions, the rename
//! text field and the renderer's pure helpers.

pub mod esc_filter;
pub mod keys;
pub mod palette;
pub mod proc_output;
pub mod render;
pub mod runs;
pub mod shell;
pub mod split_tree;
pub mod state;
pub mod terminal;
pub mod text;
pub mod text_field;
pub mod theme;
pub mod update;
pub mod workspace;
