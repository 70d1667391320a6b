[package]
name = "rs-mailserver"
version = "0.1.0"
edition = "2021"
publish = false

[dependencies]
anyhow = "1"
email_address = "0.2"
serde = { version = "1", features = ["derive"] }
tokio = { version = "1", features = ["full"] }
tokio-util = "0.7"
