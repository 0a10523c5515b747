[package]
name = "rudp_tunnel"
version = "0.1.0"
edition = "2021"
publish = false

[dependencies]
rand = "0.8"
aeron-rs = "*"
log = "0.4"
lazy_static = "1"
ctrlc = "3"
getopts = "0.2"
env_logger = "*"
platform-dirs = "*"
whoami = "*"

[dev-dependencies]
bincode = "1"
