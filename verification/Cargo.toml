[package]
name = "oldpilot"
version = "0.1.0"
edition = "2021"
publish = false

[dependencies]
anyhow = "1"
arboard = { version = "3", default-features = false }
clap = { version = "4", features = ["derive"] }
crossterm = "0.27"
ratatui = "0.26"
