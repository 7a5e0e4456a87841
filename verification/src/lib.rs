//! Verified core of the voxtype configuration tools: the post-processing
//! action-header parser, compositor keybinding detection, the settings
//! forms of the terminal UI, and the on-screen display ring buffer.

pub mod text;
pub mod post_process;
pub mod compositor_bindings;
pub mod tui;
pub mod osd;
