[package]
name = "xsd_model"
version = "0.1.0"
edition = "2021"
publish = false

[dependencies]
anyhow = "1"
heck = "0.3"
serde = { version = "1", features = ["derive"] }
serde-xml-rs = "0.6"
