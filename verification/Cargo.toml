[package]
name = "arm_backend"
version = "0.1.0"
edition = "2021"
publish = false

[dependencies]
serde = { version = "=1.0.229", features = ["derive"] }
serde_json = "=1.0.154"
eyre = "=0.6.14"
image = { version = "=0.25.10", default-features = false, features = ["png"] }
base64 = "=0.22.1"
nalgebra = "0.33"
