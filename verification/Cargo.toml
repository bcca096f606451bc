[package]
name = "upload_wheels"
version = "0.1.0"
edition = "2021"
publish = false

[dependencies]
regex = "1"
multimap = { version = "*", default-features = false }
rust-s3 = "*"
tokio = { version = "1", features = ["full"] }
indicatif = "*"
