[package]
name = "uvm_core"
version = "0.1.0"
edition = "2021"
publish = false

[dependencies]
semver = "=0.9.0"
serde = { version = "=1.0.229", features = ["derive"] }

[dev-dependencies]
regex = "=1.13.1"
