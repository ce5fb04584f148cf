[package]
name = "bishop"
version = "0.1.0"
edition = "2021"
publish = false

[dependencies]
regex = "1"
base64 = "0.22"
uuid = { version = "1", features = ["v4"] }
whoami = "1"
anyhow = "1"
serde = { version = "1", features = ["derive"] }
serde_json = "1"
tokio = { version = "1", features = ["process", "io-util", "rt-multi-thread", "macros", "sync", "time"] }
rusqlite = { version = "*", features = ["bundled"] }
portable-pty = "*"
dirs = "*"
parking_lot = "0.12"
chrono = "0.4"
tracing = "0.1"
tracing-subscriber = { version = "0.3", features = ["env-filter"] }
