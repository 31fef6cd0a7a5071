[package]
name = "moq_rs"
version = "0.1.0"
edition = "2021"
publish = false

[dependencies]
tokio = { version = "=1.54.1", features = ["full"] }
uuid = { version = "=1.29.1", features = ["v4"] }
quinn = { version = "=0.11.12", default-features = false, features = ["runtime-tokio", "rustls-ring", "log"] }
rustls = { version = "=0.23.46", default-features = false, features = ["ring", "std", "logging", "tls12"] }
rcgen = { version = "=0.14.10", default-features = false, features = ["ring", "pem"] }
gstreamer = "0.23"
gstreamer-app = "0.23"
