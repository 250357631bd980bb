[package]
name = "p2pool_core"
version = "0.1.0"
edition = "2021"
publish = false

[dependencies]
serde_json = "1"
tokio = { version = "1", features = ["sync", "rt-multi-thread", "macros"] }
libp2p = { version = "*", features = ["tokio", "tcp", "noise", "yamux", "mdns", "kad", "identify", "macros", "ed25519", "secp256k1"] }
zmq = "*"
tracing = "*"
