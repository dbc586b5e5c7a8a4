[package]
name = "monochat"
version = "0.1.0"
edition = "2021"
publish = false

[dependencies]
serde_json = "*"
futures = "*"
anyhow = "*"
tokio = { version = "*", default-features = false, features = ["rt", "time", "macros", "net", "sync"] }
tokio-tungstenite = { version = "*", features = ["rustls-tls-webpki-roots"] }
reqwest = { version = "*", default-features = false, features = ["rustls-tls"] }
