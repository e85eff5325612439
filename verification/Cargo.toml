[package]
name = "case_client"
version = "0.1.0"
edition = "2021"
publish = false

[dependencies]
serde_json = "*"
url = "*"
regex = "*"
reqwest = { version = "*", default-features = false, features = ["blocking"] }
clap = { version = "*", features = ["derive"] }
