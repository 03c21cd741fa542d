[package]
name = "captains_log"
version = "0.1.0"
edition = "2021"
publish = false

[dependencies]
chrono = { version = "0.4", features = ["serde"] }
crossterm = "0.28"
evdev = "0.12"
ratatui = "0.29"
rdev = "0.5"
serde = { version = "1", features = ["derive"] }
serde_json = "1"
tui-textarea = "0.7"
