[package]
name = "amoxide"
version = "0.1.0"
edition = "2021"
publish = false

[dependencies]
anyhow = "=1.0.104"
base64 = "=0.23.1"
clap = { version = "=4.6.7", features = ["derive"] }
clap_complete = { version = "*", features = ["unstable-dynamic"] }
ratatui = "*"
serde = { version = "=1.0.229", features = ["derive"] }
toml = "=1.1.8"
unicode-width = "=0.2.3"
