[package]
name = "driftpin"
version = "0.1.0"
edition = "2021"
publish = false

[dependencies]
clap = { version = "4", features = ["derive"] }
node-semver = "*"
pep440_rs = "*"
serde_json = "1"
serde_yaml_ng = "*"
toml = "*"
