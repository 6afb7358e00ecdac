[package]
name = "mvx_contracts"
version = "0.1.0"
edition = "2021"
publish = false

[dependencies]
multiversx-sc = "0.54"
multiversx-sc-modules = "0.54"
serde = { version = "1", features = ["derive"] }
toml = "0.8"
