[package]
name = "caesar"
version = "0.1.0"
edition = "2021"

[dependencies]
ascii = "1"
clap = { version = "4", features = ["derive"] }
