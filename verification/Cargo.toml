[package]
name = "js_engine"
version = "0.1.0"
edition = "2021"
publish = false

[dependencies]
base32 = "*"
basic-cookies = "*"
http = "*"
rand = "*"
reqwest = { version = "*", default-features = false }
serde = { version = "*", features = ["derive"] }
serde_json = "*"
sha2 = "*"
tokio = { version = "*", features = ["full"] }
url = "*"
