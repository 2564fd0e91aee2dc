[package]
name = "randomprime"
version = "0.1.0"
edition = "2021"
publish = false

[dependencies]
flate2 = "1"
serde = { version = "1", features = ["derive"] }
serde_json = "1"
clap = "2"
memmap = "0.7"
rand = "0.8"
