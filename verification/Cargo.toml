[package]
name = "github_audit"
version = "0.1.0"
edition = "2021"
publish = false

[dependencies]
colored = "3"
reqwest = { version = "0.12", default-features = false, features = ["blocking", "rustls-tls"] }
serde = { version = "1", features = ["derive"] }
serde_json = "1"
