[package]
name = "crypto_feed"
version = "0.1.0"
edition = "2021"
publish = false

[dependencies]
serde = { version = "1", features = ["derive"] }
serde_json = "1"
log = "0.4"
simple-error = "*"
crypto-market-type = "*"
crypto-msg-type = "*"
