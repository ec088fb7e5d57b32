[package]
name = "tokotchi"
version = "0.1.0"
edition = "2021"
publish = false

[dependencies]
crossterm = "0.28"
fastrand = "2"
include_dir = "0.7"
serde = { version = "1", features = ["derive"] }
serde_json = "1"
unicode-width = "0.2"
walkdir = "2"
