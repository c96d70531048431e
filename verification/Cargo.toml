[package]
name = "tx_extract"
version = "0.1.0"
edition = "2021"
publish = false

[dependencies]
bitcoincore-rpc = "*"
serde = { version = "1", features = ["derive"] }
serde_json = "1"
