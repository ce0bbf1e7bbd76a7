[package]
name = "cryo_freeze"
version = "0.1.0"
edition = "2021"
publish = false

[dependencies]
async-trait = "0.1"
chrono = "0.4"
ethers = { version = "2", default-features = false }
ethers-core = "2"
serde = { version = "1", features = ["derive"] }
serde_json = "1"
