[package]
name = "rrockerd"
version = "0.1.0"
edition = "2021"
publish = false

[dependencies]
dashmap = "*"
uuid = { version = "*", features = ["v4"] }
x509-parser = "*"
nix = { version = "*", features = ["sched", "mount", "user", "fs", "signal", "process"] }
anyhow = "*"
serde = { version = "*", features = ["derive"] }
serde-error = "*"
bincode = "1"
tokio = { version = "*", features = ["rt-multi-thread", "sync", "macros", "io-util"] }
tokio-stream = "*"
tonic = "*"
tracing = "*"
futures = "*"
async-stream = "*"

[dev-dependencies]
rcgen = "*"
