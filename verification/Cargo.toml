[package]
name = "cazean_tui"
version = "0.1.0"
edition = "2021"
publish = false

[dependencies]
anyhow = "1"
base64 = "0.22"
console-subscriber = "*"
crossterm = { version = "0.28", features = ["event-stream"] }
diffy = "0.4"
futures-util = "0.3"
pulldown-cmark = "0.13"
ratatui = "0.29"
serde_json = "1"
syntect = { version = "5", default-features = false, features = ["default-fancy"] }
thiserror = "2"
tokio = { version = "1", features = ["full"] }
tracing = "0.1"
tracing-appender = "0.2"
tracing-subscriber = { version = "0.3", features = ["env-filter"] }
two-face = { version = "*", default-features = false, features = ["syntect-fancy"] }
unicode-width = "0.2"
