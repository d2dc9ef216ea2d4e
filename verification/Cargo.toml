[package]
name = "otel_broccoli"
version = "0.1.0"
edition = "2021"
publish = false

[dependencies]
chrono = "0.4"
rand = "0.9"
serde = { version = "1", features = ["derive"] }
toml = "0.9"
getset = "0.1"
tracing = "0.1"
