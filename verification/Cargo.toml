[package]
name = "plonk_adapter"
version = "0.1.0"
edition = "2021"
publish = false

[dependencies]
acvm = "=0.41.0"
clap = { version = "4", features = ["derive"] }
