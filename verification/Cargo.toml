[package]
name = "gemini_protocol"
version = "0.1.0"
edition = "2021"
publish = false

[dependencies]
url = "*"
rustls = "*"
webpki-roots = "*"
tokio = { version = "*", features = ["rt", "net", "io-util", "macros"] }
tokio-rustls = "*"
rcgen = "*"
anyhow = "*"
