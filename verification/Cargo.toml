[package]
name = "matc"
version = "0.1.0"
edition = "2021"
publish = false

[dependencies]
Inflector = "0.11"
internment = "0.7"
linked-hash-map = "0.5"
ariadne = "0.1"
clap = { version = "3", features = ["derive"] }
