[package]
name = "rat_bar"
version = "0.1.0"
edition = "2021"
publish = false

[dependencies]
ratatui = "=0.30.2"
crossterm = { version = "=0.29.0", features = ["event-stream"] }
serde = { version = "=1.0.229", features = ["derive"] }
serde_json = { version = "=1.0.154", features = ["raw_value"] }
serde_yaml = "=0.9.34"
clap = { version = "=4.6.7", features = ["derive"] }
tokio = { version = "=1.54.1", features = ["full"] }
tokio-stream = "=0.1.19"
dirs = "=6.0.0"
humantime = "=2.4.0"
chrono = "=0.4.45"
knuffel = "=3.2.0"
miette = "=7.6.0"
sysinfo = "=0.40.1"
