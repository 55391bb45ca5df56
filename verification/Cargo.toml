[package]
name = "tiger"
version = "0.1.0"
edition = "2021"
publish = false

[dependencies]
ansi_term = "*"
encoding = "=0.2.33"
image = { version = "=0.24.9", default-features = false, features = ["png"] }
png = "=0.17.16"
unicode-width = "*"
