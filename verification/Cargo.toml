[package]
name = "adin1110"
version = "0.1.0"
edition = "2021"
publish = false

[dependencies]
bitfield-struct = "*"
embedded-hal = "0.2"
