[package]
name = "ot_validator"
version = "0.1.0"
edition = "2021"
publish = false

[dependencies]
serde_json = "1"
