[package]
name = "reforger_launcher"
version = "0.1.0"
edition = "2021"
publish = false

[dependencies]
directories = "=5.0.1"
rfd = "0.15"
serde = { version = "1", features = ["derive"] }
serde_json = "1"
