[package]
name = "minecraft"
version = "0.1.0"
edition = "2021"
publish = false

[dependencies]
uuid = { version = "1", features = ["v4"] }
serde = { version = "1", features = ["derive"] }
serde_derive = "1"
serde_json = "1"
toml = "0.8"
async-std = { version = "1", features = ["attributes"] }
async-trait = "0.1"
futures = "0.3"
log = "0.4"
log4rs = "1"
chrono = "0.4"
