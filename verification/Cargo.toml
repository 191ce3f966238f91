[package]
name = "alipay_rs"
version = "0.1.0"
edition = "2021"
publish = false

[dependencies]
openssl = "0.10"
hex = "0.4"
serde = { version = "1", features = ["derive"] }
serde_json = "1"
serde_urlencoded = "0.7"
ureq = { version = "2", features = ["json"] }
multipart = { version = "0.18", default-features = false, features = ["client"] }
futures = "0.3"
