[package]
name = "aifo_coder"
version = "0.1.0"
edition = "2021"
publish = false

[dependencies]
url = "2"
clap = { version = "4", features = ["derive"] }
atty = "0.2"
which = "*"
fs2 = "0.4"
home = "*"
nix = { version = "*", features = ["user", "signal", "process"] }
serde = { version = "1", features = ["derive"] }
serde_json = "1"
once_cell = "1"
dotenvy = "*"
