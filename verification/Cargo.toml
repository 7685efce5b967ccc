[package]
name = "pos_desktop"
version = "0.1.0"
edition = "2021"
publish = false

[dependencies]
anyhow = "1"
base64 = "0.22"
chrono = "0.4"
image = "0.25"
semver = "1"
serde_json = "1"
tempfile = "3"
