[package]
name = "stream_collection"
version = "0.1.0"
edition = "2021"
publish = false

[dependencies]
futures = "0.3"
isahc = { version = "1", features = ["json"] }
rocket = { version = "0.5", features = ["json"] }
serde = { version = "1", features = ["derive"] }
