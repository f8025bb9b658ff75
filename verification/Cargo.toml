[package]
name = "rbudget"
version = "0.1.0"
edition = "2021"
publish = false

[dependencies]
chrono = { version = "0.4", default-features = false, features = ["std"] }
currency = "0.4"
num = "0.4"
