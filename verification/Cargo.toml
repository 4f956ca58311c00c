[package]
name = "sidescroller"
version = "0.1.0"
edition = "2021"
publish = false

[dependencies]
serde = "*"
serde_derive = "*"
serde-xml-rs = "*"
