[package]
name = "lockprobe"
version = "0.1.0"
edition = "2021"
publish = false

[dependencies]
bitcoin_hashes = "0.14"
hex = "0.4"
rand = "0.8"
tokio = { version = "1", features = ["macros", "rt-multi-thread", "time"] }
futures = "0.3"
fedimint-tonic-lnd = "*"
