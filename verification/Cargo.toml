[package]
name = "tintin_finance"
version = "0.1.0"
edition = "2021"
publish = false
