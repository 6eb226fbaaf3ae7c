[package]
name = "pwstore"
version = "0.1.0"
edition = "2021"
publish = false

[dependencies]
zeroize = "*"
dirs = "*"
env_logger = "*"
log = "*"
structopt = "*"
thiserror = "*"
