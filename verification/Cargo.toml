[package]
name = "companion_supervisor"
version = "0.1.0"
edition = "2021"
publish = false

[dependencies]
chrono = "0.4"
local-ip-address = "*"
reqwest = { version = "*", default-features = false, features = ["blocking"] }
