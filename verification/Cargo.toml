[package]
name = "saito_core"
version = "0.1.0"
edition = "2021"
publish = false

[dependencies]
ahash = "*"
base58 = "*"
bigint = "*"
bincode = "1"
hex = "*"
rayon = "*"
secp256k1 = "*"
serde = { version = "1", features = ["derive"] }
serde_with = "*"
sha2 = "*"
tokio = { version = "1", features = ["full"] }
tracing = "*"
tracing-subscriber = "*"
warp = "*"
