[package]
name = "bevy_auto_sys"
version = "0.1.0"
edition = "2021"
publish = false

[dependencies]
proc-macro2 = "=1.0.107"
quote = "=1.0.47"
unicode-ident = "=1.0.27"
