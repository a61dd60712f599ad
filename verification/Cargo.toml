[package]
name = "ghn"
version = "0.1.0"
edition = "2021"
publish = false

[dependencies]
chrono = { version = "=0.4.45", features = ["serde"] }
color-eyre = "=0.6.5"
crossterm = "=0.29.0"
octocrab = "=0.41.2"
ratatui = "=0.30.2"
serde = { version = "=1.0.229", features = ["derive"] }
serde_yaml = "=0.9.34"
tokio = { version = "=1.54.1", features = ["macros", "rt-multi-thread"] }
