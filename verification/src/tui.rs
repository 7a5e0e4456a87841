//! The settings sections of the terminal UI: their state, how it is read
//! from and written to the config, and how the keys change it.

pub mod common;
pub mod config_editor;
pub mod waybar_section;
pub mod advanced_section;
pub mod meeting_section;
pub mod notifications_section;
pub mod engine;
pub mod models_section;
pub mod audio;
pub mod vad_section;
