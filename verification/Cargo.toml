[package]
name = "quadratic_core"
version = "0.1.0"
edition = "2021"
publish = false

[dependencies]
chrono = "=0.4.45"
uuid = { version = "=1.29.0", features = ["v4", "serde"] }
serde = { version = "=1.0.229", features = ["derive"] }
serde_json = "=1.0.154"
ts-rs = "=12.0.1"
httpmock = { version = "=0.9.0", features = ["proxy", "record"] }
