[package]
name = "conduwuit_core"
version = "0.1.0"
edition = "2021"
publish = false

[dependencies]
ruma = { version = "=0.10.1", default-features = false, features = ["canonical-json"] }
rand = "=0.8.8"
rust-argon2 = "=2.1.0"
base64 = "=0.22.1"
hmac = "=0.12.1"
sha1 = "=0.10.7"
regex = "=1.13.1"
clap = { version = "=4.6.7", features = ["derive"] }
jsonwebtoken = "=9.3.1"
serde = { version = "=1.0.229", features = ["derive"] }
serde_json = "=1.0.154"
itertools = "0.13"
