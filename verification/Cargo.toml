[package]
name = "reactrix_store"
version = "0.1.0"
edition = "2021"
publish = false

[dependencies]
blake2 = "*"
chrono = "*"
hex = "*"
rmp-serde = "*"
url = "*"
