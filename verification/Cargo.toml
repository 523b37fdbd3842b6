[package]
name = "igd_soap"
version = "0.1.0"
edition = "2021"
publish = false

[dependencies]
regex = "1"
hyper = "0.10"
