[package]
name = "fabro"
version = "0.1.0"
edition = "2021"
publish = false

[dependencies]
ulid = "1"
sha2 = "0.10"
base64 = "0.22"
minijinja = "2"
serde = { version = "1", features = ["derive"] }
serde_json = "1"
chrono = { version = "0.4", features = ["serde"] }
