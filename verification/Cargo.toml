[package]
name = "radio"
version = "0.1.0"
edition = "2021"
publish = false

[dependencies]
anyhow = "1"
bytes = "1"
chrono = "0.4"
crossterm = "0.27"
diesel = { version = "2.1", default-features = false, features = ["sqlite"] }
dotenvy = "0.15"
futures-util = "0.3"
parking_lot = "0.12"
rand = "0.8"
ratatui = "0.26"
reqwest = { version = "0.11", default-features = false, features = ["stream"] }
serde = { version = "1", features = ["derive"] }
tokio = { version = "1", features = ["full"] }
tracing = "0.1"
tracing-appender = "0.2"
tracing-subscriber = "0.3"
