[package]
name = "fhe_service"
version = "0.1.0"
edition = "2021"
publish = false

[dependencies]
tfhe = { version = "=0.7.4", default-features = false, features = ["boolean", "shortint", "integer", "x86_64-unix"] }
bincode = "=1.3.3"
crossterm = "=0.29.0"
