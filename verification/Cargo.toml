[package]
name = "apex"
version = "0.1.0"
edition = "2021"
publish = false

[dependencies]
async_zip = { version = "*", features = ["deflate"] }
clap = { version = "*", features = ["derive"] }
pollster = "*"
