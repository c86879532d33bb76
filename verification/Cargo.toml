[package]
name = "goset"
version = "0.1.0"
edition = "2021"
publish = false

[dependencies]
mem_cmp = "=0.1.4"
