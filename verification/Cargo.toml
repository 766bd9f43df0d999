[package]
name = "karo_bus"
version = "0.1.0"
edition = "2021"
publish = false

[dependencies]
bson = "=2.15.0"
serde = { version = "=1.0.229", features = ["derive"] }
serde_json = "1"
colored = "=2.2.0"
tokio = { version = "=1.53.2", features = ["full"] }
