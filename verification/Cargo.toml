[package]
name = "monger"
version = "0.1.0"
edition = "2021"
publish = false

[dependencies]
soup = "*"
dirs = "*"
hyperx = "*"
reqwest = { version = "*", default-features = false, features = ["blocking", "rustls-tls"] }
clap = "*"
rs-release = "*"
serde_json = "*"
