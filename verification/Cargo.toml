[package]
name = "turbo_tasks_backend"
version = "0.1.0"
edition = "2021"
publish = false

[dependencies]
rustc-hash = "2"
indexmap = "2"
bincode = { version = "2", features = ["derive"] }
