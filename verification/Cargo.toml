[package]
name = "tmj_app"
version = "0.1.0"
edition = "2021"
publish = false

[dependencies]
regex = "1"
serde = { version = "1", features = ["derive"] }
toml = "0.8"
json5 = "0.4"
time = { version = "0.3", features = ["local-offset"] }
