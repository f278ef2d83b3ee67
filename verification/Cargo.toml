[package]
name = "oximod"
version = "0.1.0"
edition = "2021"
publish = false

[dependencies]
regex = "*"
mongodb = "*"
futures-util = "*"
