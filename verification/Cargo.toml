[package]
name = "wgen"
version = "0.1.0"
edition = "2021"
publish = false

[dependencies]
anyhow = "1"
chrono = "0.4"
log = "0.4"
markdown = "*"
minijinja = "*"
serde = { version = "1", features = ["derive"] }
simplelog = "*"
toml = "*"
