[package]
name = "rusty_mooring"
version = "0.1.0"
edition = "2021"
publish = false

[dependencies]
pyo3 = "0.20"
serde = { version = "1", features = ["derive"] }
serde_derive = "1"
toml = "0.8"
