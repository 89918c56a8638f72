[package]
name = "lear"
version = "0.2.0"
edition = "2021"
publish = false

[dependencies]
clap = "2"
rand = "0.8"
serde = { version = "1", features = ["derive"] }
serde_json = "1"
termion = "1.5"
