[package]
name = "livestack_shared"
version = "0.1.0"
edition = "2021"
publish = false

[dependencies]
petgraph = { version = "0.6", default-features = false }
serde = { version = "1", features = ["derive"] }
serde_json = "1"
