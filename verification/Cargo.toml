[package]
name = "token_factory"
version = "0.1.0"
edition = "2021"
publish = false

[dependencies]
cosmwasm-std = "1.4"
serde = { version = "1", features = ["derive"] }
