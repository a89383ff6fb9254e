[package]
name = "surepet"
version = "0.1.0"
edition = "2021"
publish = false

[dependencies]
serde_json = "1.0"
chrono = "0.4"
home = "0.5"
reqwest = { version = "0.11", default-features = false, features = ["blocking"] }
