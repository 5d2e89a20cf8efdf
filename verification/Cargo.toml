[package]
name = "pjoin"
version = "0.1.0"
edition = "2021"
publish = false

[dependencies]
shlex = "=1.3.0"
clap = { version = "=4.5.61", features = ["derive"] }
nix = "=0.24.3"
