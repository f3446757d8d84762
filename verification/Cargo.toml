[package]
name = "gigabyte-kbd-backlight"
version = "0.1.0"
edition = "2021"
publish = false

[dependencies]
clap = { version = "4", features = ["derive"] }
nix = { version = "*", features = ["user", "fs"] }
signal-hook = "*"
