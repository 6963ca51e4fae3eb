[package]
name = "penum_ingress"
version = "0.1.0"
edition = "2021"
publish = false

[dependencies]
getrandom = "0.2"
rand = "0.8"
sha2 = "0.10"
uuid = { version = "1", features = ["v4"] }
