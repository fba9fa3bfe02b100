[package]
name = "batch_fetch"
version = "0.1.0"
edition = "2021"
publish = false

[dependencies]
reqwest = "0.11"
serde = { version = "1", features = ["derive"] }
tokio = { version = "1", features = ["full"] }
warp = "0.3"
