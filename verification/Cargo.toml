[package]
name = "tego"
version = "0.1.0"
edition = "2021"
publish = false

[dependencies]
base64 = "0.13"
libflate = "1"
roxmltree = "0.14"
thiserror = "1"
