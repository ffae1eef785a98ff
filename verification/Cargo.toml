[package]
name = "villagers"
version = "0.1.0"
edition = "2021"
publish = false

[dependencies]
async-compat = "0.2"
itertools = "0.12"
reqwest = { version = "0.11", features = ["json"] }
serde = { version = "1", features = ["derive"] }
serde_json = "1"
