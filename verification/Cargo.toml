[package]
name = "collete"
version = "1.0.0"
edition = "2021"
publish = false

[dependencies]
sysinfo = { version = "0.32", default-features = false, features = ["system"] }
termion = "4"
users = "0.11"
