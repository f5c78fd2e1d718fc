[package]
name = "upload_headers"
version = "0.1.0"
edition = "2021"
publish = false

[dependencies]
actix-web = { version = "4", default-features = false }
humantime = "2"
percent-encoding = "2"
