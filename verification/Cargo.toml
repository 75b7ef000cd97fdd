[package]
name = "s2-cli"
version = "0.1.0"
edition = "2021"
publish = false

[dependencies]
clap = { version = "4", features = ["derive"] }
color-print = "0.3"
colored = "2"
humantime = "2"
miette = { version = "7", features = ["fancy"] }
serde_json = "1"
streamstore = "=0.7.0"
thiserror = "1"
tokio = { version = "1", features = ["full"] }
tokio-stream = "0.1"
tracing = "0.1"
tracing-subscriber = { version = "0.3", features = ["env-filter"] }
