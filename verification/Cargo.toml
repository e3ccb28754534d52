[package]
name = "snapshot_relay"
version = "0.1.0"
edition = "2021"
publish = false

[dependencies]
clap = "2"
ctrlc = "3"
env_logger = "0.7"
log = "0.4"
memchr = "2"
notify = "4"
zstd = "0.13"
