[package]
name = "native_versioning"
version = "0.1.0"
edition = "2021"
publish = false

[dependencies]
cc = "1"
