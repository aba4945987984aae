[package]
name = "youtube"
version = "0.1.0"
edition = "2021"
publish = false

[dependencies]
regex = "1"
serde_json = "1"
reqwest = { version = "0.12", default-features = false }
async-trait = "0.1"
