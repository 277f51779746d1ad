[package]
name = "localex"
version = "0.1.0"
edition = "2021"
publish = false

[dependencies]
bit-vec = "=0.8.0"
nix = { version = "=0.29.0", features = ["user", "fs", "hostname"] }
libp2p = { version = "=0.54.1", default-features = false, features = ["tokio", "gossipsub", "mdns", "request-response", "cbor", "tcp", "noise", "yamux", "macros"] }
async-compression = { version = "=0.4.52", features = ["tokio", "zstd"] }
futures = "=0.3.34"
uuid = { version = "=1.29.0", features = ["v4"] }
bimap = "=0.6.3"
tokio = { version = "=1.54.1", features = ["full"] }
serde = { version = "=1.0.229", features = ["derive"] }
ciborium = "=0.2.2"
clap = { version = "=4.6.7", default-features = false, features = ["std", "derive"] }
anyhow = "=1.0.104"
tracing = "=0.1.44"
ratatui = "0.28"
crossterm = { version = "0.28", features = ["event-stream"] }
