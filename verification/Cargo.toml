[package]
name = "grorm"
version = "0.1.0"
edition = "2021"
publish = false

[dependencies]
hex = "0.4"
md-5 = "0.10"
serde = { version = "1", features = ["derive"] }
parking_lot = "0.12"
gorust = "*"
