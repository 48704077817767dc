[package]
name = "remote_mem"
version = "0.1.0"
edition = "2021"
publish = false

[dependencies]
widestring = "1"
nix = { version = "0.28", default-features = false, features = ["uio", "process"] }
proc-maps = "0.3"
sysinfo = { version = "0.30", default-features = false }
