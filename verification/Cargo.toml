[package]
name = "enigma"
version = "0.1.0"
edition = "2021"
publish = false

[dependencies]
pbkdf2 = { version = "=0.12.2", features = ["simple"] }
uuid = { version = "=1.27.0", features = ["v4"] }
chrono = "=0.4.45"
rand_core = { version = "=0.6.4", features = ["getrandom"] }
