[package]
name = "obn_core"
version = "0.1.0"
edition = "2021"
publish = false

[dependencies]
blake3 = "=1.8.7"
sha2 = "=0.10.9"
getrandom = "=0.2.17"
rand = "=0.8.8"
serde = { version = "=1.0.229", features = ["derive"] }
serde_json = "=1.0.154"
bincode = "=1.3.3"
tokio = { version = "=1.54.1", features = ["sync", "rt", "macros", "fs", "io-util", "time", "process"] }
async-trait = "=0.1.92"
libp2p = { version = "=0.57.1", default-features = false, features = ["ed25519", "tcp", "noise", "yamux", "identify", "kad", "tokio", "macros"] }
opus = "=0.3.1"
openh264 = "=0.4.4"
