[package]
name = "rvn"
version = "0.1.0"
edition = "2021"
publish = false

[dependencies]
clap = "2"
url = "2"

[dependencies.reqwest]
version = "*"
default-features = false
features = ["blocking"]
