[package]
name = "crush"
version = "0.1.0"
edition = "2021"
publish = false

[dependencies]
regex = "1"
chrono = "0.4"
psutil = "1"
users = "0.11"
