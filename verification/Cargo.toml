[package]
name = "memfill"
version = "0.1.0"
edition = "2021"
publish = false

[dependencies]
bytesize = "1.3"
duration-str = "*"
nix = { version = "0.29", features = ["feature", "process", "signal", "user"] }
procfs = "0.16"
rand = "0.8"
structopt = "0.3"
