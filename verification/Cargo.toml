[package]
name = "tui_world"
version = "0.1.4"
edition = "2021"
publish = false

[dependencies]
crossterm = "0.29"
ratatui = { version = "*", default-features = false }
