[package]
name = "bmad"
version = "0.1.0"
edition = "2021"
publish = false

[dependencies]
chrono = { version = "=0.4.45", features = ["serde"] }
uuid = { version = "=1.29.0", features = ["v4", "serde"] }
serde = { version = "=1.0.229", features = ["derive"] }
serde_yaml = "=0.9.34"
serde_json = "=1.0.154"
notify = "=6.1.1"
tokio = { version = "=1.54.1", features = ["sync"] }
walkdir = "=2.5.0"
tracing = "=0.1.44"
thiserror = "=1.0.69"
dirs = "5"
