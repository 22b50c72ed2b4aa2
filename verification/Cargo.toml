[package]
name = "capycrypt"
version = "0.1.0"
edition = "2021"
publish = false

[dependencies]
capy_kem = "*"
rand = "0.8"
serde = { version = "1", features = ["derive"] }
