[package]
name = "brui"
version = "0.1.0"
edition = "2021"
publish = false

[dependencies]
anyhow = "=1.0.104"
clap = { version = "=4.6.7", features = ["derive"] }
crossterm = "=0.29.0"
fuzzy-matcher = "=0.3.7"
notify = "=8.2.1"
notify-debouncer-full = "=0.7.0"
ratatui = { version = "=0.30.2", features = ["unstable-rendered-line-info"] }
ratatui-core = "=0.1.2"
rusqlite = "=0.41.0"
serde = { version = "=1.0.229", features = ["derive"] }
serde_json = "=1.0.154"
tui-markdown = { version = "=0.3.12", default-features = false }
