[package]
name = "dpe"
version = "0.1.0"
edition = "2021"
publish = false

[dev-dependencies]
asn1 = "*"
x509-parser = "*"
