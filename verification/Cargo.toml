[package]
name = "icn_runtime"
version = "0.1.0"
edition = "2021"
publish = false

[dependencies]
cid = "=0.11.3"
multihash = "=0.19.5"
multibase = "=0.9.3"
sha2 = "=0.10.9"
ed25519-dalek = "=2.2.0"
hex = "=0.4.3"
base64 = "0.21"
serde = { version = "=1.0.229", features = ["derive"] }
serde_json = "=1.0.154"
clap = { version = "=4.6.7", features = ["derive"] }
anyhow = "=1.0.104"
chrono = "0.4"
uuid = { version = "1", features = ["v4"] }
rand = "0.8"
toml = "0.8"
