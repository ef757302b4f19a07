[package]
name = "battleship"
version = "0.1.0"
edition = "2021"
publish = false

[dependencies]
cosmwasm-schema = "1"
schemars = "0.8"
secret-cosmwasm-std = "1.1"
secret-toolkit = { version = "*", default-features = false, features = ["storage"] }
serde = { version = "1", default-features = false, features = ["derive"] }
thiserror = "1"
