[package]
name = "authgate"
version = "0.1.0"
edition = "2021"
publish = false

[dependencies]
moka = { version = "=0.12.16", features = ["sync"] }
uuid = { version = "=1.27.0", features = ["v4"] }
chrono = "=0.4.45"
