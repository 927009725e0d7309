[package]
name = "rugpi-ctrl"
version = "0.1.0"
edition = "2021"
publish = false

[dependencies]
camino = "1"
clap = { version = "4", features = ["derive"] }
nix = { version = "*", features = ["fs"] }
serde = "1"
tempdir = "0.3"
thiserror = "1"
xscript = "*"

[dev-dependencies]
serde_json = "1"
