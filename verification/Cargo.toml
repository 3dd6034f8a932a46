[package]
name = "frankenstein_creator"
version = "0.1.0"
edition = "2021"
publish = false

[dependencies]
kuchiki = "0.8"
heck = "0.3"
regex = "1"
isahc = "1"
