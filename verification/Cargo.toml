[package]
name = "sacct_tui"
version = "0.1.0"
edition = "2021"
publish = false

[dependencies]
csv = "1"
clap = { version = "4", features = ["derive"] }
ratatui = "0.29"
