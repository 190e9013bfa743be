[package]
name = "tmux_menu"
version = "0.1.16"
edition = "2021"
publish = false

[dependencies]
anyhow = "1"
clap = "4"
libc = "0.2"
nix = "0.26"
regex = "1"
serde = { version = "1", features = ["derive"] }
serde_yaml = "0.9"
shlex = "1"
