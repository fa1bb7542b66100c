[package]
name = "openapi_snapshot"
version = "0.1.0"
edition = "2021"
publish = false

[dependencies]
clap = { version = "=4.6.7", features = ["derive"] }
reqwest = { version = "=0.12.28", features = ["blocking"] }
serde_json = { version = "=1.0.154", features = ["preserve_order"] }
