[package]
name = "rwt"
version = "0.5.0"
edition = "2021"
publish = false

[dependencies]
curl = "0.4"
