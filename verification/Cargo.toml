[package]
name = "bedcode_mobile"
version = "0.1.0"
edition = "2021"
publish = false

[dependencies]
rand = "=0.8.8"
base64 = "=0.22.1"
uuid = { version = "=1.29.0", features = ["v4"] }
chrono = { version = "=0.4.45", default-features = false, features = ["clock"] }
serde = { version = "=1.0.229", features = ["derive"] }
serde_json = "=1.0.154"
mdns-sd = "*"
flume = "*"
reqwest = { version = "*", default-features = false, features = ["blocking", "json"] }
