[package]
name = "public_api_tricks"
version = "0.1.0"
edition = "2021"
publish = false

[dependencies]
rustdoc-types = "=0.59.0"
serde_json = { version = "=1.0.154", features = ["unbounded_depth"] }
serde = { version = "=1.0.229", features = ["derive"] }
