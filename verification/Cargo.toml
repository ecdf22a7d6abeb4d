[package]
name = "interest_management"
version = "0.1.0"
edition = "2021"
publish = false

[dependencies]
bevy = { version = "0.14", default-features = false }
serde = { version = "1", features = ["derive"] }
tracing = "0.1"
