[package]
name = "bitswap_engine"
version = "0.1.0"
edition = "2021"
publish = false

[dependencies]
bytes = "=1.12.1"
caches = "0.3"
cid = "=0.11.3"
fastmurmur3 = "=0.1.2"
libp2p = { version = "=0.57.1", default-features = false }
tokio = { version = "=1.54.1", default-features = false, features = ["time"] }
