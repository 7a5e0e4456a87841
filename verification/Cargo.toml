[package]
name = "voxtype"
version = "0.1.0"
edition = "2021"
publish = false

[dependencies]
anyhow = "1"
clap = { version = "4", features = ["derive", "env"] }
cpal = "*"
crossterm = "*"
ratatui = "*"
serde = { version = "1", features = ["derive"] }
tokio = { version = "1", features = ["process", "time", "io-util", "net", "macros", "rt-multi-thread"] }
tracing = "0.1"
tracing-subscriber = { version = "0.3", features = ["env-filter"] }
toml_edit = "*"
