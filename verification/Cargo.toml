[package]
name = "keylights"
version = "0.1.0"
edition = "2021"
publish = false

[dependencies]
rand = "=0.8.8"
uinput = "0.1"
