[package]
name = "who_me"
version = "0.1.0"
edition = "2021"
publish = false

[dependencies]
chrono = "0.4"
crossterm = "*"
ratatui = "*"
serde = { version = "1", features = ["derive"] }
toml = "*"
tui-scrollview = "*"
unicode-width = "*"
