[package]
name = "pir"
version = "0.1.0"
edition = "2021"

[dependencies]
fhe = "=0.1.1"
fhe-math = "=0.1.1"
fhe-traits = "=0.1.1"
rand = "=0.9.5"
