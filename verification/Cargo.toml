[package]
name = "gameserver"
version = "0.1.0"
edition = "2021"
publish = false

[dependencies]
rand = "*"
sodiumoxide = "0.2"
serde = { version = "*", features = ["derive"] }
serde_json = "*"
