[package]
name = "deadbeef"
version = "0.1.0"
edition = "2021"
publish = false

[dependencies]
alloy = { version = "=1.8.3", default-features = false, features = ["eips", "network", "providers", "rpc-types", "std"] }
eyre = "*"
futures = "*"
tokio = { version = "*", features = ["rt", "rt-multi-thread", "sync", "macros"] }
tracing = "*"
tracing-subscriber = { version = "*", default-features = false, features = ["env-filter", "fmt"] }
