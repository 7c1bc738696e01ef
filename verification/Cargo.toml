[package]
name = "rust_fixed_decimal"
version = "0.1.0"
edition = "2021"
publish = false

[dependencies]
arrayvec = "0.7"
num-traits = "0.2"
serde = "1"
