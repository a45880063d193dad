[package]
name = "git_timer"
version = "0.1.0"
edition = "2021"
publish = false

[dependencies]
chrono = "0.4"
tempfile = "3"
log = "0.4"
env_logger = "*"
