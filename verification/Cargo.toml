[package]
name = "mib_rs"
version = "0.1.0"
edition = "2021"
publish = false

[dependencies]
dirs = "*"
thiserror = "=2.0.21"
walkdir = "=2.5.0"
