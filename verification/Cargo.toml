[package]
name = "sbrs_core"
version = "0.1.0"
edition = "2021"
publish = false

[dependencies]
regex = "=1.13.1"
base64 = "=0.22.1"
users = "=0.11.0"
ratatui = "0.29"
