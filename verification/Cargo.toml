[package]
name = "whispercli"
version = "0.3.3"
edition = "2021"
publish = false

[dependencies]
anyhow = "1"
clap = { version = "4", features = ["derive"] }
cpal = "0.17"
crossbeam-channel = "0.5"
crossterm = "0.28"
ratatui = "0.29"
reqwest = { version = "0.12", default-features = false, features = ["blocking", "rustls-tls"] }
serde = { version = "1", features = ["derive"] }
sha1 = "0.10"
toml = "0.8"
whisper-rs = "0.15"
