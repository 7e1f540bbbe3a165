[package]
name = "flatlined"
version = "0.1.0"
edition = "2021"
publish = false

[dependencies]
blake2-rfc = "0.2"
constant_time_eq = "0.1"
clap = "4"
toml = "0.8"
serde = { version = "1", features = ["derive"] }
serde_derive = "1"
log = "0.4"
env_logger = "0.11"
nix = { version = "0.29", features = ["user"] }
daemonize = "0.5"
nanomsg = "0.7"
trust-dns-resolver = "0.23"

[dev-dependencies]
quickcheck = { version = "0.9", default-features = false }
