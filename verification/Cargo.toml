[package]
name = "fanout"
version = "0.1.0"
edition = "2021"
publish = false

[dependencies]
async-process = "*"
brace-expand = "*"
futures-lite = "*"
futures-util = "*"
gethostname = "*"
globby = "*"
rust-ini = "*"
lexopt = "*"
regex = "*"
shellexpand = "*"
smol = "*"
smol-timeout = "*"
toml = "*"
