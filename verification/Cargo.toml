[package]
name = "kitsune"
version = "0.1.0"
edition = "2021"
publish = false

[dependencies]
libc = "0.2"
nix = { version = "0.30", features = ["fs", "mount", "process", "signal", "user", "ptrace", "poll", "socket"] }
rand = "0.9"
num-traits = "0.2"
bitflags = "2"
