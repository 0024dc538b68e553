[package]
name = "osatui"
version = "0.1.0"
edition = "2021"
publish = false

[dependencies]
anyhow = "*"
chrono = "*"
crossterm = "*"
dirs = "*"
log = "*"
osars = "*"
ratatui = "*"
serde = { version = "*", features = ["derive"] }
serde_json = "*"
tokio = { version = "*", features = ["rt-multi-thread", "macros", "fs", "time"] }
toml = "*"
