[package]
name = "yakstore"
version = "0.1.0"
edition = "2021"
publish = false

[dependencies]
ssri = "*"
scru128 = "*"
serde_json = "*"
serde = { version = "*", features = ["derive"] }
tokio = { version = "*", features = ["sync", "time", "rt-multi-thread", "macros"] }
anyhow = "*"
