[package]
name = "decork"
version = "0.1.0"
edition = "2021"
publish = false

[dependencies]
base64 = "0.22"
structopt = "0.3"
url = "2"
