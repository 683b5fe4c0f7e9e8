[package]
name = "grm"
version = "0.1.0"
edition = "2021"
publish = false

[dependencies]
anyhow = "=1.0.104"
clap = { version = "=4.6.7", features = ["derive"] }
dirs = "=7.0.0"
git2 = { version = "=0.21.0", features = ["cred"] }
url = "=2.5.8"
walkdir = "=2.5.0"
whoami = "=1.6.1"
