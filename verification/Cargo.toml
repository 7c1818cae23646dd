[package]
name = "codex_shim"
version = "0.1.0"
edition = "2021"
publish = false

[dependencies]
serde = { version = "1", features = ["derive"] }
serde_json = "1"
serde_yaml = "0.9"
toml_edit = "0.22"
sha2 = "0.10"
chrono = "0.4"
anyhow = "1"
clap = { version = "4", features = ["derive"] }
