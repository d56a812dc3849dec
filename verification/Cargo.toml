[package]
name = "zebedee_rust"
version = "0.1.0"
edition = "2021"
publish = false

[dependencies]
anyhow = "*"
chrono = "*"
reqwest = { version = "*", default-features = false }

[dev-dependencies]
serde_json = "*"
