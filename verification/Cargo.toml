[package]
name = "incredi"
version = "0.1.0"
edition = "2021"
publish = false

[dependencies]
byteorder = "1"
clap = "2"
env_logger = "*"
error-chain = "0.12"
log = "0.4"
nix = { version = "*", features = ["fs"] }
sfml = "0.14"
yaml-rust = "0.4"
