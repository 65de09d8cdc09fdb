[package]
name = "rust_dmr_mal"
version = "0.1.0"
edition = "2021"
publish = false

[dependencies]
ansi_term = "0.12"
atty = "0.2"
bimap = "0.6"
dirs = "3"
itertools = "0.10"
linefeed = "0.6"
log = "0.4"
pretty_env_logger = "0.4"
regex = "1"
