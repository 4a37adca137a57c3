[package]
name = "audio_latency"
version = "0.1.0"
edition = "2021"
publish = false

[dependencies]
xxhash-rust = { version = "*", features = ["xxh3"] }
regex = "*"
serde = { version = "*", features = ["derive"] }
serde_yaml = "*"
tokio = { version = "*", features = ["rt-multi-thread", "sync", "macros", "time"] }
notify = "*"
prometheus = "*"
lazy_static = "*"
