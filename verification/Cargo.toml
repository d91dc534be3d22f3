[package]
name = "vix"
version = "0.1.0"
edition = "2021"
publish = false

[dependencies]
xrl = "*"
futures = "0.1"
tokio = "0.1"
termion = "1"
serde_json = "*"
dirs = "*"
