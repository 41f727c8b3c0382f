[package]
name = "rvk"
version = "0.1.0"
edition = "2021"
publish = false

[dependencies]
chrono = "0.4"
heck = "0.3"
log = "0.4"
num = "0.4"
reqwest = { version = "0.11", default-features = false, features = ["json"] }
serde = { version = "1", features = ["derive"] }
serde_json = "1"
