[package]
name = "weblite"
version = "0.1.0"
edition = "2021"
publish = false

[dependencies]
base64ct = "1"
embedded-io-async = "0.6"
sha1 = "0.10"
