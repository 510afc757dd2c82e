[package]
name = "landon"
version = "0.1.0"
edition = "2021"
publish = false

[dependencies]
failure = "0.1"
nalgebra = "*"
serde = { version = "1", features = ["derive"] }
serde_derive = "1"
serde_json = "1"
thiserror = "1"
