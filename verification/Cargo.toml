[package]
name = "chain_sync"
version = "0.1.0"
edition = "2021"
publish = false

[dependencies]
rand = "0.8"
anyhow = "1"
tracing = "0.1"
futures = "0.3"
async-stream = "0.3"
tokio = { version = "1", features = ["sync", "rt", "rt-multi-thread", "time", "macros"] }
rusqlite = "*"
libp2p = { version = "*", default-features = false }
web3 = { version = "*", default-features = false }
