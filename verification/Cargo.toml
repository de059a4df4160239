[package]
name = "searx_search"
version = "0.1.0"
edition = "2021"
publish = false

[dependencies]
reqwest = { version = "0.12", features = ["json"] }
serde_json = "1"
async-trait = "0.1"
