[package]
name = "agentbox"
version = "0.1.0"
edition = "2021"
publish = false

[dependencies]
camino = "1"
clap = { version = "4", features = ["derive"] }
nix = { version = "0.29", features = ["mount"] }
serde = { version = "1", features = ["derive"] }
serde_json = "1"
toml = "0.8"
