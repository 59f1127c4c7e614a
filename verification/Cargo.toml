[package]
name = "mdq"
version = "0.1.0"
edition = "2021"
publish = false

[dependencies]
neli = "*"
structopt = "*"
trust-dns-client = "*"
