[package]
name = "version_file"
version = "0.1.0"
edition = "2021"
publish = false

[dependencies]
prost = "0.13"
uuid = "1"
thiserror = "1"
tracing = "0.1"
