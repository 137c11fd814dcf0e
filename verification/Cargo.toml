[package]
name = "rafael"
version = "2.4.1"
edition = "2021"
publish = false

[dependencies]
chrono = "0.4"
clap = { version = "4", features = ["derive"] }
crossbeam = "0.8"
env_logger = "0.11"
filetime = "0.2"
indicatif = "0.17"
log = "0.4"
nix = { version = "0.30.1", features = ["dir", "fs"] }
rand = "0.8"
rayon = "1"
rustix = { version = "1", features = ["fs"] }
syslog = "7"
