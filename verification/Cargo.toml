[package]
name = "pargo"
version = "0.1.0"
edition = "2021"
publish = false

[dependencies]
seahash = "*"
toml = "0.5"
log = "*"
pretty_env_logger = "*"
