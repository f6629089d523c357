[package]
name = "flat_odt"
version = "0.1.0"
edition = "2021"
publish = false

[dependencies]
xml-rs = "0.8"
serde_yaml_ng = "*"
base64 = "0.22"
