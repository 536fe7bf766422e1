[package]
name = "serde_xml_rs"
version = "0.1.0"
edition = "2021"
publish = false

[dependencies]
xml-rs = "=0.8.29"
serde = "=0.9.15"
