[package]
name = "contextual_anchor"
version = "0.1.0"
edition = "2021"
publish = false

[dependencies]
regex = "*"
serde = { version = "*", features = ["derive"] }
serde_json = "*"
schemars = "*"
anyhow = "*"
log = "*"
