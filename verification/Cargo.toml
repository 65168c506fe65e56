[package]
name = "rust_15_async_chat"
version = "0.1.0"
edition = "2021"
publish = false

[dependencies]
anyhow = "*"
chrono = "*"
nanodb = "*"
serde = { version = "*", features = ["derive"] }
serde_derive = "*"
tokio = { version = "*", features = ["full"] }
