[package]
name = "pet-render"
version = "0.1.0"
edition = "2021"
publish = false

[dependencies]
anyhow = "1"
cosmic-text = "0.14"
image = { version = "0.25", default-features = false, features = ["png", "webp"] }
serde = { version = "1", features = ["derive"] }
serde_json = "1"
smithay-client-toolkit = { version = "0.20", default-features = false, features = ["calloop"] }
tokio = { version = "1", default-features = false, features = ["sync"] }
tracing = "0.1"
