[package]
name = "ggit"
version = "0.1.0"
edition = "2021"
publish = false

[dependencies]
anyhow = "1"
chrono = "0.4"
clap = { version = "4", features = ["derive"] }
colored = "2"
comfy-table = "7"
dirs = "5"
rusqlite = { version = "0.31", features = ["bundled"] }
thiserror = "1"
walkdir = "2"

[dev-dependencies]
tempfile = "3"
