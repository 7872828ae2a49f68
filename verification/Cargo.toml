[package]
name = "session_search"
version = "0.1.0"
edition = "2021"
publish = false

[dependencies]
anyhow = "1"
clap = { version = "4", features = ["derive"] }
crossbeam-channel = "0.5"
directories = "*"
fuzzy-matcher = "0.3"
nucleo = "*"
ratatui = "*"
rayon = "1"
serde = { version = "1", features = ["derive"] }
serde_json = "1"
shell-words = "1"
time = { version = "0.3", features = ["formatting", "parsing", "local-offset"] }
walkdir = "2"
