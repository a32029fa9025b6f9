[package]
name = "authsrv"
version = "0.1.0"
edition = "2021"
publish = false

[dependencies]
sha2 = "*"
rand = "*"
uuid = { version = "*", features = ["v4"] }
config = { version = "*", default-features = false, features = ["toml"] }

[dev-dependencies]
serde_json = "*"
