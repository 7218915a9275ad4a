[package]
name = "mining_core"
version = "0.1.0"
edition = "2021"
publish = false

[dependencies]
anyhow = "=1.0.104"
tokio = { version = "=1.53.2", default-features = false, features = ["rt-multi-thread", "macros", "time"] }
ethers = { version = "=2.0.14", default-features = false }
