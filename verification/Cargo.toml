[package]
name = "jview"
version = "0.1.0"
edition = "2021"
publish = false

[dependencies]
clap = "*"
crossterm = "*"
serde_json = { version = "*", features = ["preserve_order"] }
