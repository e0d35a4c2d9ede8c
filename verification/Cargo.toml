[package]
name = "dfdx_core"
version = "0.1.0"
edition = "2021"
publish = false

[dependencies]
cudarc = { version = "0.9", default-features = false, features = ["std", "driver", "ci-check"] }
