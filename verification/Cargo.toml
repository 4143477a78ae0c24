[package]
name = "secure_proxy"
version = "0.1.0"
edition = "2021"
publish = false

[dependencies]
anyhow = "*"
rcgen = "*"
rustls = "*"
serde = { version = "*", features = ["derive"] }
serde_json = "*"
tokio = { version = "*", features = ["rt-multi-thread", "net", "io-util", "macros", "time"] }
tokio-rustls = "*"
tracing = "*"
tracing-subscriber = "*"
webpki-roots = "*"
