[package]
name = "mediacore"
version = "0.1.0"
edition = "2021"
publish = false

[dependencies]
image = { version = "*", default-features = false, features = ["png", "jpeg", "webp"] }
url = "*"
tokio = { version = "*", features = ["rt-multi-thread", "macros", "sync", "time"] }
aws-sdk-s3 = "*"
dotenvy = "*"
uuid = { version = "*", features = ["v4"] }
chrono = "*"
