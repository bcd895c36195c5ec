[package]
name = "russh_rules"
version = "0.1.0"
edition = "2021"
publish = false

[dependencies]
ssh-key = { version = "0.6", default-features = false, features = ["std"] }
