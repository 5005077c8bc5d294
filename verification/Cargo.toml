[package]
name = "lading"
version = "0.1.0"
edition = "2021"
publish = false

[dependencies]
rand = "=0.8.8"
rustc-hash = "=1.1.0"
byte-unit = { version = "=4.0.19", features = ["serde"] }
bytes = "=1.12.1"
clap = { version = "=3.2.25", features = ["derive"] }
futures = "=0.3.34"
http = "=0.2.12"
metrics = "=0.21.1"
metrics-exporter-prometheus = { version = "=0.12.2", default-features = false, features = ["http-listener"] }
reqwest = { version = "=0.11.27", default-features = false, features = ["json"] }
serde = { version = "=1.0.229", features = ["derive"] }
serde_json = "=1.0.154"
serde_yaml = "0.9"
thiserror = "=1.0.69"
tokio = { version = "=1.54.1", features = ["rt-multi-thread", "net", "io-util", "fs", "sync", "time", "signal", "macros"] }
tonic = "=0.9.2"
tracing = "=0.1.44"
tracing-subscriber = "=0.3.23"
