[package]
name = "rmk_core"
version = "0.1.0"
edition = "2021"
publish = false

[dependencies]
ssmarshal = "=1.0.0"
usbd-hid = "=0.8.2"
proc-macro2 = "=1.0.107"
quote = "=1.0.47"
