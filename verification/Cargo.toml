[package]
name = "iqdb-types"
version = "1.0.0"
edition = "2021"
publish = false

[dependencies]
error-forge = "*"
serde = { version = "1", features = ["derive"] }
