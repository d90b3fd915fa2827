[package]
name = "erc1155"
version = "0.1.0"
edition = "2021"
publish = false

[dependencies]
stylus-sdk = "*"
