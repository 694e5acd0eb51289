[package]
name = "jwt_compact"
version = "0.1.0"
edition = "2021"
publish = false

[dependencies]
ct-codecs = "1"
serde = "1"
serde_json = "1"
