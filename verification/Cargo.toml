[package]
name = "audit_api"
version = "0.1.0"
edition = "2021"
publish = false

[dependencies]
uuid = "1"
pulldown-cmark = { version = "0.12", default-features = false }
ignore = "0.4"
serde = { version = "1", features = ["derive"] }
serde_json = "1"

[dev-dependencies]
tempfile = "3"
