[package]
name = "lovelyres"
version = "0.1.0"
edition = "2021"
publish = false

[dependencies]
aes-gcm = "0.10"
base64 = "0.22"
rand = "0.8"
ssh2 = "*"
serde = { version = "1", features = ["derive"] }
serde_json = "1"
chrono = "0.4"
dirs = "*"
uuid = { version = "1", features = ["v4"] }
