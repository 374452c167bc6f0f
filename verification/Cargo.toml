[package]
name = "mview"
version = "0.1.0"
edition = "2021"
publish = false

[dependencies]
proc-macro2 = { version = "*", features = ["span-locations"] }
