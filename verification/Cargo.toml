[package]
name = "tarpaulin_config"
version = "0.1.0"
edition = "2021"
publish = false

[dependencies]
regex = "1"
clap = "2"
coveralls-api = "0.4"
log = "0.4"
serde = { version = "1", features = ["derive"] }
toml = "0.5"
