[package]
name = "sentinel"
version = "0.1.0"
edition = "2021"
publish = false

[dependencies]
reqwest = { version = "0.12", default-features = false, features = ["json", "rustls-tls"] }
serde_json = "1"
thiserror = "2"
tokio = { version = "1", features = ["macros", "rt", "time"] }
tracing = "0.1"
