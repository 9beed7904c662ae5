[package]
name = "webdm"
version = "0.1.0"
edition = "2021"
publish = false

[dependencies]
url = "=2.5.8"
ipc-channel = "=0.23.0"
nix = { version = "=0.31.3", features = ["fs", "process", "signal"] }
pam = "=0.8.0"
users = "=0.11.0"
rouille = "=3.6.2"
clap = "=2.34.0"
toml = "=1.1.7"
serde = { version = "=1.0.229", features = ["derive"] }
serde_json = "=1.0.151"
