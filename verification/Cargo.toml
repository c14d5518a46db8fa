[package]
name = "petits_chevaux"
version = "0.1.0"
edition = "2021"
publish = false

[dependencies]
colored = "1.9"
rand = "0.7"
