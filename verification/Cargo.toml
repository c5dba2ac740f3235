[package]
name = "bug"
version = "0.1.0"
edition = "2021"
publish = false

[dependencies]
bincode = "1.3"
clap = "4"
serde = { version = "1", features = ["derive"] }
