[package]
name = "perpl_sdk"
version = "0.1.0"
edition = "2021"
publish = false

[dependencies]
fastnum = "*"
alloy = { version = "1", default-features = false, features = ["std", "provider-http", "rpc-types", "sol-types"] }
tokio = { version = "1", features = ["rt-multi-thread", "macros", "time", "signal"] }
futures = "0.3"
clap = { version = "4", default-features = false, features = ["std", "derive", "help"] }
colored = "*"
anyhow = "1"
