[package]
name = "srtla_send"
version = "0.1.0"
edition = "2021"
publish = false

[dependencies]
anyhow = "1"
chrono = "=0.4.45"
clap = { version = "4", features = ["derive"] }
mimalloc = "0.1"
rand = "=0.9.5"
rustc-hash = "=2.1.3"
serde = { version = "1", features = ["derive"] }
serde_json = "1"
smallvec = "=2.0.0-alpha.12"
socket2 = "0.6"
tokio = { version = "1", features = ["full"] }
toml = "0.8"
tracing = "0.1"
tracing-subscriber = { version = "0.3", features = ["env-filter"] }

[dev-dependencies]
tempfile = "3"
