[package]
name = "lodestone_cli"
version = "0.1.0"
edition = "2021"
publish = false

[dependencies]
semver = { version = "1", features = ["serde"] }
serde = { version = "1", features = ["derive"] }
serde_json = "1"
clap = { version = "4", features = ["derive"] }
color-eyre = "0.6"
ctrlc = "3"
dirs = "*"
futures-util = "0.3"
indicatif = "0.17"
reqwest = { version = "0.12", features = ["stream", "json", "blocking"] }
self-replace = "1"
self_update = "*"
tempfile = "3"
tokio = { version = "1", features = ["full"] }
tracing = "0.1"
chrono = "0.4"
