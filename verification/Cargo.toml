[package]
name = "penrose_from_scratch"
version = "0.1.0"
edition = "2021"
publish = false

[dependencies]
penrose = "*"
penrose_ui = "*"
anyhow = "1"
tracing-subscriber = { version = "0.3", features = ["env-filter"] }
