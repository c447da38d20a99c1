[package]
name = "csv2parquet"
version = "0.1.0"
edition = "2021"
publish = false

[dependencies]
csv = "1"
rand = "0.9"
fake = "4"
uuid = { version = "1", features = ["v4"] }
serde_json = "1"
arrow = { version = "56", default-features = false }
parquet = { version = "56", default-features = false, features = ["arrow", "snap"] }
log = "0.4"
pretty_env_logger = "0.5"
