[package]
name = "ores-otel-cli"
version = "0.1.0"
edition = "2021"
publish = false

[dependencies]
serde_json = "=1.0.154"
thiserror = "=2.0.21"
