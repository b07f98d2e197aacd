[package]
name = "app_server_core"
version = "0.1.0"
edition = "2021"
publish = false

[dependencies]
sha2 = "=0.11.1"
serde = { version = "=1.0.229", features = ["derive"] }
serde_json = "=1.0.154"
tokio = { version = "=1.54.1", features = ["fs", "rt", "macros", "process", "time", "io-util", "sync"] }
jiff = "=0.2.39"
notify = "=8.2.1"
getrandom = "=0.4.3"
log = "=0.4.35"
dirs = "=7.0.0"
toml = "*"
