[package]
name = "dh_crack"
version = "0.1.0"
edition = "2021"
publish = false

[dependencies]
hex = "0.4"
num = "0.4"
thiserror = "2"
