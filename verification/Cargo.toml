[package]
name = "glypheris"
version = "0.1.0"
edition = "2021"
publish = false

[dependencies]
prost = "0.13"
serde = { version = "1", features = ["derive"] }
serde_json = "1"
chrono = "0.4"
uuid = { version = "1", features = ["v4"] }
tokio = { version = "1", features = ["rt-multi-thread", "net", "io-util", "sync", "macros"] }
reqwest = { version = "0.12", default-features = false, features = ["rustls-tls"] }
