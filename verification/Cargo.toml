[package]
name = "dispatcher"
version = "0.1.0"
edition = "2021"
publish = false

[dependencies]
nv-redfish-core = "*"
serde = { version = "1", features = ["derive"] }
