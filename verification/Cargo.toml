[package]
name = "tuiedit"
version = "0.1.0"
edition = "2021"
publish = false

[dependencies]
serde_json = "1"
ratatui = "0.29"
crossterm = "0.28"
syntect = { version = "5", default-features = false, features = ["default-fancy"] }
portable-pty = "0.8"
reqwest = { version = "0.12", default-features = false, features = ["blocking", "json"] }
