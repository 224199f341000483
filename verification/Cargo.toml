[package]
name = "vterm"
version = "0.1.0"
edition = "2021"
publish = false

[dependencies]
semver = "1"
serde = { version = "1", features = ["derive"] }
serde_json = "1"
dirs = "*"
ureq = { version = "2", features = ["json"] }
async-channel = "2"
alacritty_terminal = "0.25"
portable-pty = "*"
