[package]
name = "btrsnap"
version = "0.1.0"
edition = "2021"
publish = false

[dependencies]
anyhow = "1"
btrfsutil = "*"
chrono = "0.4"
clap = { version = "4", features = ["derive"] }
color-print = "*"
env_logger = "*"
humantime = "2"
log = "0.4"
nix = { version = "*", features = ["user"] }
toml = "*"
walkdir = "2"
