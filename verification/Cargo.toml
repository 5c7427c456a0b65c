[package]
name = "dnsaur"
version = "0.1.0"
edition = "2021"
publish = false

[dependencies]
domain = "0.10"
fastrand = "2"
memchr = "2"
monoio = "0.2"
