[package]
name = "genesis_transactions"
version = "0.1.0"
edition = "2021"
publish = false

[dependencies]
borsh = { version = "=1.2.1", features = ["derive"] }
eyre = "0.6"
serde = { version = "1", features = ["derive"] }
toml = "0.5"
