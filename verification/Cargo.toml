[package]
name = "crab"
version = "0.1.0"
edition = "2021"
publish = false

[dependencies]
atty = "0.2"
clap = { version = "3.2", features = ["derive"] }
rand = "0.8"
