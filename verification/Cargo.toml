[package]
name = "stylus"
version = "0.1.0"
edition = "2021"
publish = false

[dependencies]
clap = { version = "=4.6.7", features = ["derive", "env"] }
log = "=0.4.34"
serde = { version = "=1.0.229", features = ["derive"] }
humantime-serde = "=1.1.1"
tokio = { version = "=1.53.2", features = ["rt-multi-thread"] }
windows-service = "=0.8.1"
