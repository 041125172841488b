[package]
name = "shorthand"
version = "0.1.0"
edition = "2021"
publish = false

[dependencies]
clap = { version = "*", features = ["derive"] }
confy = "*"
itertools = "*"
nix = { version = "*", features = ["process"] }
serde = { version = "*", features = ["derive"] }
thiserror = "*"
