[package]
name = "silo"
version = "0.1.0"
edition = "2021"
publish = false

[dependencies]
rusqlite = { version = "*", features = ["bundled", "backup"] }
time = { version = "*", features = ["formatting"] }
