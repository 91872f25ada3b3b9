[package]
name = "trex_runner"
version = "0.1.0"
edition = "2021"
publish = false

[dependencies]
rand = { version = "=0.8.8", features = ["small_rng"] }
ratatui = "=0.26.3"
crossterm = "=0.27.0"
