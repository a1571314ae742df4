[package]
name = "loose_odb"
version = "0.1.0"
edition = "2021"
publish = false

[dependencies]
flate2 = "1"
sha1 = "0.10"
sha2 = "0.10"
serde = "1"
bstr = "1"
