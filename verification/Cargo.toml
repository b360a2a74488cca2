[package]
name = "water_executor"
version = "0.1.0"
edition = "2021"
publish = false

[dependencies]
anyhow = "*"
clap = { version = "*", features = ["derive"] }
rmp-serde = "*"
sentry = { version = "*", default-features = false, features = ["tracing"] }
serde = { version = "*", features = ["derive"] }
serde_yaml = "*"
tracing = "*"
tracing-subscriber = { version = "*", features = ["env-filter"] }
