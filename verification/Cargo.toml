[package]
name = "battsim"
version = "0.1.0"
edition = "2021"
publish = false

[dependencies]
anyhow = "=1.0.104"
calamine = "=0.23.1"
chrono = { version = "=0.4.45", features = ["serde"] }
csv = "=1.4.0"
serde = { version = "=1.0.229", features = ["derive"] }
