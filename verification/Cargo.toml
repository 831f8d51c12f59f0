[package]
name = "noize"
version = "0.1.0"
edition = "2021"
publish = false

[dependencies]
anyhow = "1"
clap = { version = "4", features = ["derive"] }
libc = "0.2"
mpv = "*"
nix = { version = "0.29", features = ["term", "poll"] }
serde = { version = "1", features = ["derive"] }
serde_json = "1"
