[package]
name = "markchain"
version = "0.1.0"
edition = "2021"
publish = false

[dependencies]
bincode = "1.3"
env_logger = "0.10"
libp2p = { version = "0.53", features = ["floodsub", "mdns", "tokio", "tcp", "noise", "yamux", "macros", "serde", "ed25519"] }
log = "0.4"
multihash = { version = "0.19", features = ["serde"] }
sha3 = "0.10"
rand = "0.8"
serde = "1"
serde_derive = "1"
serde_json = "1"
sled = "0.34"
structopt = "0.3"
tokio = { version = "1", features = ["full"] }
void = "1"
