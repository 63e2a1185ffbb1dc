[package]
name = "fj"
version = "0.1.0"
edition = "2021"
publish = false

[dependencies]
tracing-subscriber = { version = "*", features = ["env-filter"] }
