[package]
name = "dbfc"
version = "0.1.0"
edition = "2021"
publish = false

[dependencies]
sha2 = "0.7"
clap = "2"
serde = { version = "1", features = ["derive"] }
serde_derive = "1"
serde_json = "1"
