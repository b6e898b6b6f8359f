[package]
name = "pong_wars_core"
version = "0.1.0"
edition = "2021"
publish = false

[dependencies]
oorandom = "11.1"
libm = "0.2"
minifb = "0.28"
embedded-graphics = "0.8"
