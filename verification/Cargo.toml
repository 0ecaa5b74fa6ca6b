[package]
name = "opendp"
version = "0.1.0"
edition = "2021"
publish = false

[dependencies]
backtrace = "0.3"
darling = "0.14"
num = "0.3"
serde_json = "1"
