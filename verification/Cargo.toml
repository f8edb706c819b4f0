[package]
name = "gastown-tui"
version = "0.1.0"
edition = "2021"
publish = false

[dependencies]
serde = { version = "1", features = ["derive"] }
serde_json = "1"
ureq = { version = "2", default-features = false, features = ["json"] }
ratatui = "0.29"
crossterm = "0.28"
dirs = "5"
color-eyre = { version = "0.6", default-features = false }
