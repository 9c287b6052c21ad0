[package]
name = "codex-session-selector"
version = "0.1.0"
edition = "2021"
publish = false

[dependencies]
anyhow = "1"
serde_json = "1"
rusqlite = { version = "*", features = ["bundled"] }
ratatui = "*"
crossterm = "*"
arboard = { version = "*", default-features = false }
