[package]
name = "crust"
version = "0.1.0"
edition = "2021"
publish = false

[dependencies]
gotham = "0.7"
gotham_derive = "0.7"
mime = "0.3"
rand = "0.8"
reqwest = { version = "0.11", default-features = false }
serde = "1"
serde_derive = "1"
serde_json = "1"
simple-error = "0.2"
tokio = { version = "1", features = ["rt", "rt-multi-thread", "time"] }
url = "2"
