[package]
name = "paperless_cli"
version = "0.1.0"
edition = "2021"
publish = false

[dependencies]
serde = { version = "=1.0.229", features = ["derive"] }
serde_json = "=1.0.154"
reqwest = { version = "=0.12.28", default-features = false, features = ["blocking", "rustls-tls", "multipart"] }
clap = { version = "=4.6.7", features = ["derive"] }
rpassword = "=7.5.4"
