[package]
name = "equity_token"
version = "0.1.0"
edition = "2021"
publish = false

[dependencies]
soroban-sdk = "*"
soroban-token-sdk = "*"

[dev-dependencies]
soroban-sdk = { version = "*", features = ["testutils"] }
