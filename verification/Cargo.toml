[package]
name = "pbs"
version = "0.1.0"
edition = "2021"
publish = false

[dependencies]
crossterm = "*"
rusqlite = { version = "*", features = ["bundled"] }
serde = { version = "1", features = ["derive"] }
urlencoding = "2"
