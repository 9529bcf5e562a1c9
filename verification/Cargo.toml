[package]
name = "dsh_tui"
version = "0.1.0"
edition = "2021"
publish = false

[dependencies]
serde_json = "=1.0.154"
unicode-width = "=0.2.3"
crossterm = "=0.29.0"
serde = { version = "1", features = ["derive"] }
