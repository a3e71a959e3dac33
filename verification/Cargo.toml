[package]
name = "codex_talon"
version = "0.1.0"
edition = "2021"
publish = false

[dependencies]
serde_json = "*"
clap = { version = "*", features = ["derive"] }
dirs = "*"
anyhow = "*"
