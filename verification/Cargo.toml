[package]
name = "fure"
version = "0.1.0"
edition = "2021"
publish = false

[dependencies]
tokio = { version = "1", features = ["rt", "time"] }
rand = "0.8"
pin-project-lite = "0.2"
