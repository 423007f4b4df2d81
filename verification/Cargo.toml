[package]
name = "safe_bigmath"
version = "0.1.0"
edition = "2021"
publish = false

[dependencies]
rug = { version = "1", default-features = false, features = ["integer"] }
num-bigint = "0.4"
num-traits = "0.2"
num-integer = "0.1"
quoth = "*"
uintx = "*"
