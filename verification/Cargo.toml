[package]
name = "chitin"
version = "0.1.0"
edition = "2021"
publish = false

[dependencies]
which = "*"
anyhow = "*"
atty = "*"
clap = { version = "*", features = ["derive"] }
dirs = "*"
serde = { version = "*", features = ["derive"] }
serde_json = "*"
