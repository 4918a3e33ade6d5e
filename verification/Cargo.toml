[package]
name = "mixnet"
version = "0.1.0"
edition = "2021"
publish = false

[dependencies]
sphinx-packet = "=0.8.0"
x25519-dalek = { version = "=3.0.0", features = ["static_secrets", "getrandom"] }
rand = "=0.9.5"
uuid = { version = "1", features = ["v4"] }
serde = { version = "1", features = ["derive"] }
serde_yaml = "0.9"
tokio = { version = "1", features = ["sync", "rt", "rt-multi-thread", "macros", "time", "signal"] }
prometheus-client = "*"
tiny_http = "*"
