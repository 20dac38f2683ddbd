[package]
name = "ogg_metadata"
version = "0.4.1"
edition = "2021"
publish = false

[dependencies]
byteorder = "1"
ogg = "0.7"
