[package]
name = "channel_acceptor"
version = "0.1.0"
edition = "2021"
publish = false

[dependencies]
secp256k1 = "*"
serde = { version = "*", features = ["derive"] }
serde_yaml = "*"
tokio = { version = "*", features = ["rt-multi-thread", "macros", "sync", "time"] }
tokio-stream = "*"
tonic_lnd = "*"
tracing = "*"
tracing-subscriber = "*"
