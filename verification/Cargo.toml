[package]
name = "ring_cmh"
version = "0.1.0"
edition = "2021"
publish = false

[dependencies]
serde = { version = "*", features = ["derive"] }
tokio = { version = "*", features = ["full"] }
tarpc = { version = "*", features = ["tcp", "serde-transport", "serde-transport-json"] }
axum = "*"
futures = "*"
tracing = "*"
tracing-subscriber = { version = "*", features = ["env-filter"] }
colored = "*"
