[package]
name = "cqrs_store"
version = "0.1.0"
edition = "2021"
publish = false

[dependencies]
async-trait = "=0.1.92"
cqrs-es2 = "=0.8.0"
redis = "=1.8.0"
serde = { version = "=1.0.229", features = ["derive"] }
serde_json = "=1.0.154"

[dev-dependencies]
tokio-test = "=0.4.6"
uuid = { version = "=1.29.0", features = ["v4"] }
