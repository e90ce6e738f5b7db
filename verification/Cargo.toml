[package]
name = "typechain"
version = "0.1.0"
edition = "2021"
publish = false

[dependencies]
base64 = "*"
bytes = "*"
futures = "*"
http = "*"
serde = "*"
serde_json = "*"
serde_qs = "*"
sodiumoxide = "*"
