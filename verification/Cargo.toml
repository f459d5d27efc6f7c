[package]
name = "rskill"
version = "0.1.0"
edition = "2021"
publish = false

[dependencies]
chrono = "*"
clap = { version = "*", features = ["derive"] }
crossterm = "*"
fs_extra = "*"
ratatui = "*"
rayon = "*"
tokio = { version = "*", features = ["full"] }
walkdir = "*"
