[package]
name = "ws_core"
version = "0.1.0"
edition = "2021"

[dependencies]
base64 = "0.22"
rand = "0.9"
sha1 = "0.10"
