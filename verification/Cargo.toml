[package]
name = "wled_controller"
version = "0.1.0"
edition = "2021"
publish = false

[dependencies]
ddp-rs = "=1.3.0"
reqwest = { version = "=0.11.27", features = ["blocking"] }
thiserror = "=1.0.69"
wled-json-api-library = "=0.1.7"
