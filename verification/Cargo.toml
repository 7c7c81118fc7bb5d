[package]
name = "cargo_embed"
version = "0.1.0"
edition = "2021"
publish = false

[dependencies]
anyhow = "1"
clap = { version = "4", features = ["derive"] }
colored = "2"
parking_lot = "0.12"
time = "0.3"
tracing = "0.1"
