[package]
name = "spin_runtime"
version = "0.1.0"
edition = "2021"
publish = false

[dependencies]
sled = "*"

[dev-dependencies]
borsh = "*"
