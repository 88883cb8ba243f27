[package]
name = "imperial_verify"
version = "0.1.0"
edition = "2021"
publish = false

[dependencies]
rand = "0.8"
