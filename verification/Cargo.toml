[package]
name = "balancebeam"
version = "0.1.0"
edition = "2021"
publish = false

[dependencies]
rand = "0.8"
http = "0.2"
httparse = "1"
tokio = { version = "1", features = ["full"] }
clap = { version = "4", features = ["derive"] }
log = "0.4"
pretty_env_logger = "0.5"
crossbeam-channel = "0.5"
nix = { version = "*", features = ["ptrace", "signal", "process"] }
rustyline = "*"
