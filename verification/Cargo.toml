[package]
name = "pgress_session"
version = "0.1.0"
edition = "2021"
publish = false

[dependencies]
rustc-hash = "2"
ed25519-dalek = "2"
thiserror = "1"
