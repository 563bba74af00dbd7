[package]
name = "tabox"
version = "0.1.0"
edition = "2021"
publish = false

[dependencies]
anyhow = "1"
env_logger = "*"
lazy_static = "1"
libc = "0.2"
log = "0.4"
nix = { version = "=0.31.3", features = ["fs", "mount", "process", "resource", "sched", "signal", "user"] }
seccomp-sys = "=0.1.3"
serde = { version = "1", features = ["derive"] }
serde_json = "1"
signal-hook = "=0.1.17"
structopt = "=0.3.26"
tempdir = "=0.3.7"
