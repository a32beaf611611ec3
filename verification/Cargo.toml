[package]
name = "iam"
version = "0.1.0"
edition = "2021"
publish = false

[dependencies]
argon2 = "*"
chrono = "*"
rand = "*"
regex = "*"
uuid = { version = "*", features = ["v4"] }
