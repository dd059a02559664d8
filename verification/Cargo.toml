[package]
name = "vid2txt"
version = "0.1.0"
edition = "2021"
publish = false

[dependencies]
anyhow = "1"
clap = { version = "4", features = ["derive"] }
dialoguer = "0.11"
dirs = "5"
indicatif = "0.17"
reqwest = { version = "0.12", features = ["blocking", "json"] }
sanitize-filename = "*"
serde = { version = "1", features = ["derive"] }
serde_json = "1"
tempfile = "3"
walkdir = "2"
which = "6"

[dev-dependencies]
regex = "1"
