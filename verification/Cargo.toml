[package]
name = "agentmap"
version = "0.1.0"
edition = "2021"
publish = false

[dependencies]
regex = "=1.13.1"
anyhow = "=1.0.104"
clap = { version = "=4.6.7", features = ["derive"] }
serde = { version = "=1.0.229", features = ["derive"] }
serde_json = "=1.0.154"
toml = "=0.8.23"
ignore = "=0.4.33"
chrono = "=0.4.45"
notify = "=6.1.1"
notify-debouncer-mini = "=0.4.1"
rmcp = { version = "*", features = ["server", "macros", "transport-io"] }
tokio = { version = "1", features = ["rt-multi-thread", "macros", "sync", "io-std"] }
schemars = "*"
self_update = "*"
inquire = "*"
console = "*"
indicatif = "*"
