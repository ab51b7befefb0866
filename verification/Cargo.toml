[package]
name = "tarama"
version = "0.1.0"
edition = "2021"
publish = false

[dependencies]
anyhow = "=1.0.104"
axum = "=0.7.9"
base64 = "=0.22.1"
image = { version = "=0.25.10", default-features = false, features = ["bmp", "jpeg"] }
serde = { version = "=1.0.229", features = ["derive"] }
tokio = { version = "=1.54.1", features = ["rt-multi-thread", "macros", "net"] }
tower-http = { version = "=0.5.2", features = ["cors"] }
