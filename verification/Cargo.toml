[package]
name = "shell_cmd"
version = "1.3.0"
edition = "2021"
publish = false

[dependencies]
clap = { version = "4", features = ["derive"] }
libc = "0.2"
nix = { version = "*", features = ["process", "signal"] }
regex = "1"
