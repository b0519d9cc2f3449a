[package]
name = "nutsh_tui"
version = "0.1.0"
edition = "2021"
publish = false

[dependencies]
unicode-width = "*"
crossterm = "*"
ratatui = "*"
tokio = { version = "1", features = ["rt", "signal", "macros", "time", "sync"] }
futures = "*"
anyhow = "*"
