[package]
name = "nl80211scan"
version = "0.1.0"
edition = "2021"
publish = false

[dependencies]
neli = { version = "=0.6.5", features = ["async"] }
anyhow = "=1.0.104"
tokio = { version = "1", features = ["io-util"] }
