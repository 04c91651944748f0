[package]
name = "tradecore"
version = "0.1.0"
edition = "2021"
publish = false

[dependencies]
chrono = "*"
uuid = { version = "*", features = ["v4"] }
core_affinity = "*"
tokio = { version = "*", features = ["rt", "macros", "time"] }
async-trait = "*"
anyhow = "*"
