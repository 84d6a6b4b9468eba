[package]
name = "tar_install"
version = "0.2.0"
edition = "2021"
publish = false

[dependencies]
anyhow = "1"
bzip2 = "0.4"
clap = { version = "4", features = ["derive"] }
dialoguer = "0.11"
flate2 = "1"
hex = "0.4"
regex = "1"
serde = { version = "1", features = ["derive"] }
serde_json = "1"
serde_yaml = "0.9"
sha2 = "0.10"
tar = "0.4"
tempfile = "3"
walkdir = "2"
xz2 = "0.1"
