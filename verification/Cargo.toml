[package]
name = "lifelog"
version = "0.1.0"
edition = "2021"
publish = false

[dependencies]
chrono = "0.4"
uuid = { version = "1", features = ["v4"] }
rusqlite = { version = "0.32", features = ["bundled"] }
directories = "5"
ratatui = "0.29"
crossterm = "0.28"
