//! The on-screen mic visualizer: its position setting, the buffer of audio
//! frames it draws from, and the count of frames on a connection.

pub mod config;
pub mod ring;
pub mod stream;
