[package]
name = "reth_pool_stages"
version = "0.1.0"
edition = "2021"
publish = false

[dependencies]
fnv = "1"
alloy-primitives = "*"
serde = { version = "1", features = ["derive"] }
thiserror = "1"
rand = "0.8"
