[package]
name = "errbit_rs"
version = "0.1.0"
edition = "2021"
publish = false

[dependencies]
hostname = "0.4"
reqwest = "0.12"
serde = { version = "1", features = ["derive"] }
