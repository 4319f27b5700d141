[package]
name = "ltc_bridge"
version = "0.1.0"
edition = "2021"
publish = false

[dependencies]
anyhow = "1"
cpal = "*"
if-addrs = "*"
rosc = "*"
x42ltc-sys = "*"
