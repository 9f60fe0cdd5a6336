[package]
name = "kanitomo"
version = "0.1.0"
edition = "2021"
publish = false

[dependencies]
rand = "0.8"
chrono = { version = "0.4", features = ["serde"] }
ratatui = "0.29"
crossterm = "0.28"
anyhow = "1"
dirs = "5"
git2 = { version = "0.19", default-features = false }
notify = "6"
serde = { version = "1", features = ["derive"] }
serde_json = "1"
