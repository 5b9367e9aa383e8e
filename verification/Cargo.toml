[package]
name = "herdr-palette"
version = "0.1.0"
edition = "2021"
publish = false

[dependencies]
serde = { version = "1", features = ["derive"] }
serde_json = "1"
toml = "0.8"
nucleo-matcher = "0.3"
ratatui = "0.29"
crossterm = "0.28"
libc = "0.2"
