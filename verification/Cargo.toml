[package]
name = "tankers"
version = "0.1.0"
edition = "2021"
publish = false

[dependencies]
rand = "*"
uuid = { version = "*", features = ["v4"] }
anyhow = "*"
log = "*"
env_logger = "*"
futures = "*"
async-std = "*"
async-tungstenite = { version = "*", features = ["async-std-runtime"] }
