[package]
name = "lash"
version = "0.1.0"
edition = "2021"
publish = false

[dependencies]
anyhow = "1"
bincode = "2"
clap = { version = "4", features = ["derive"] }
config = { version = "*", default-features = false, features = ["toml"] }
dirs = "*"
log = "0.4"
path-absolutize = "3"
serde = { version = "1", features = ["derive"] }
shellexpand = "3"
simplelog = "0.12"
walkdir = "2"
