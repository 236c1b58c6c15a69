[package]
name = "symfose"
version = "0.1.0"
edition = "2021"
publish = false

[dependencies]
anyhow = "*"
midly = "*"
rodio = "*"
rustysynth = "*"
serde = { version = "*", features = ["derive"] }
toml = "*"
tracing = "*"
tracing-appender = "*"
tracing-subscriber = { version = "*", features = ["env-filter"] }
