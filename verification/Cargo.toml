[package]
name = "rusty_python"
version = "0.1.0"
edition = "2021"
publish = false

[dependencies]
oak-core = "=0.0.11"
oak-python = "=0.0.11"
smallvec = { version = "=1.16.4", features = ["serde"] }
serde = { version = "=1.0.229", features = ["derive"] }
