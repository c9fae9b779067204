[package]
name = "cargo_cleaner"
version = "0.1.0"
edition = "2021"
publish = false

[dependencies]
crossbeam-channel = "0.5"
anyhow = "1"
cargo_toml = "*"
clap = { version = "4", features = ["derive"] }
crossterm = "0.28"
dirs = "*"
num_cpus = "1"
ratatui = "0.29"
uuid = { version = "1", features = ["v4"] }
