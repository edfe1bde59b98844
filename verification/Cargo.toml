[package]
name = "actions-token"
version = "0.1.0"
edition = "2021"
publish = false

[dependencies]
actions-toolkit = "=0.0.2"
anyhow = "=1.0.104"
jwt-simple = { version = "=0.12.17", default-features = false, features = ["pure-rust"] }
rsa = "=0.9.10"
secrecy = "=0.8.0"
serde_json = { version = "=1.0.154", features = ["preserve_order"] }
serde_yaml = "=0.9.34"
sha2 = { version = "=0.10.9", features = ["oid"] }
ureq = "=2.12.1"
