[package]
name = "clash-tray"
version = "0.1.0"
edition = "2021"
publish = false

[dependencies]
async-io = "2"
async-web-client = "*"
futures-channel = "0.3"
futures-lite = "2"
http = "1"
ksni = { version = "0.3", default-features = false, features = ["async-io"] }
serde = { version = "1", features = ["derive"] }
serde_json = "1"
