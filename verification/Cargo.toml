[package]
name = "escape_core"
version = "0.1.0"
edition = "2021"
publish = false

[dependencies]
serde = "1.0"
serde_json = "1.0"
