[package]
name = "rorpc"
version = "0.1.0"
edition = "2021"
publish = false

[dependencies]
axum = "0.8"
serde = { version = "1", features = ["derive"] }
serde_json = "1"
syn = { version = "2", features = ["full", "extra-traits"] }
quote = "1"
proc-macro2 = "1"
inventory = "0.3"
async-trait = "0.1"
futures = "0.3"
futures-core = "0.3"
tokio-stream = "0.1"
async-stream = "0.3"
tower-http = { version = "0.6", features = ["cors"] }
