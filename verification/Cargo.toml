[package]
name = "emergence_lib"
version = "0.1.0"
edition = "2021"
publish = false

[dependencies]
hexx = { version = "=0.15.0", default-features = false }
rand = "=0.8.8"
serde = { version = "=1.0.229", features = ["derive"] }
