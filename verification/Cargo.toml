[package]
name = "lattica"
version = "0.1.0"
edition = "2021"
publish = false

[dependencies]
async-compression = { version = "0.4", features = ["tokio", "gzip", "zstd", "lz4", "brotli"] }
tokio = { version = "1", features = ["io-util", "rt", "sync", "time", "fs", "macros"] }
futures = "0.3"
libp2p = { version = "*", default-features = false, features = ["ed25519", "kad", "identify", "gossipsub", "request-response", "rendezvous", "relay", "tokio", "macros"] }
stun_codec = "*"
bytecodec = "*"
cid = "*"
chrono = "0.4"
fnv = "1"
bincode = { version = "2", features = ["derive"] }
serde = { version = "1", features = ["derive"] }
sled = "0.34"
blockstore = "*"
rand = "*"
anyhow = "1"
tracing = "0.1"
