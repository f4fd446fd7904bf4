[package]
name = "ai_types"
version = "0.1.0"
edition = "2021"
publish = false

[dependencies]
anyhow = "*"
futures-core = "*"
futures-lite = "*"
pin-project-lite = "*"
schemars = "*"
serde = { version = "*", features = ["derive"] }
serde_json = "*"
url = "*"
