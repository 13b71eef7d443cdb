[package]
name = "rose_offline"
version = "0.1.0"
edition = "2021"
publish = false

[dependencies]
rand = "0.8"
shellwords = "1"
serde = { version = "1", features = ["derive"] }
serde_json = "1"
tempfile = "3"
anyhow = "1"
thiserror = "1"
chrono = "0.4"
clap = "3"
lazy_static = "1"
