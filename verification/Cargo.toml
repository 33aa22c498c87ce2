[package]
name = "urandom"
version = "0.1.0"
edition = "2021"

[dependencies]
dataview = "1"
getrandom = "0.2"
serde = { version = "1", features = ["derive"] }
