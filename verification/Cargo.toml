[package]
name = "shellbridge"
version = "0.1.0"
edition = "2021"
publish = false

[dependencies]
anyhow = "*"
clap = { version = "*", features = ["derive"] }
colored = "*"
dialoguer = "*"
serde = { version = "*", features = ["derive"] }
serde_json = "*"
sys-info = "*"
