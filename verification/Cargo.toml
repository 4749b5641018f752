[package]
name = "mpv-client"
version = "0.1.0"
edition = "2021"
publish = false

[dependencies]
log = "0.4"
serde = "1"
mpv-client-sys = "*"
