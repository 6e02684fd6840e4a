[package]
name = "chain_tracker"
version = "0.1.0"
edition = "2021"
publish = false

[dependencies]
alloy-primitives = "*"
alloy-sol-types = "*"
anyhow = "*"
futures = "*"
metrics = "*"
metrics-derive = "*"
tokio = { version = "*", features = ["macros", "rt", "sync", "time"] }
tracing = "*"
