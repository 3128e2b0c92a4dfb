[package]
name = "rndz"
version = "0.1.0"
edition = "2021"
publish = false

[dependencies]
protobuf = "3"
rand = "0.8"
log = "0.4"
env_logger = "0.10"
nix = { version = "0.29", features = ["poll"] }
socket2 = { version = "0.5", features = ["all"] }
structopt = "0.3"
tokio = { version = "1", features = ["full"] }
