[package]
name = "fishermon"
version = "0.1.0"
edition = "2021"
publish = false

[dependencies]
decimal = "=2.1.0"
toml = "=0.9.8"
log = "=0.4.34"
env_logger = "=0.11.11"
