[package]
name = "romscan"
version = "0.1.0"
edition = "2021"
publish = false

[dependencies]
uuid = { version = "*", features = ["v4"] }
chrono = "*"
shell-words = "*"
walkdir = "*"
rusqlite = { version = "*", features = ["bundled"] }
dirs = "*"
