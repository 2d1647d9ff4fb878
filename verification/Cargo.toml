[package]
name = "nuq"
version = "0.1.0"
edition = "2021"
publish = false

[dependencies]
serde_json = "1"
serde_yaml = "0.9"
ron = "0.8"
toml = "0.8"
serde-transcode = "1"
jq-rs = { version = "0.4", features = ["bundled"] }
syntect = "5"
anyhow = "1"
atty = "0.2"
clap = { version = "4", features = ["derive"] }
