[package]
name = "collada"
version = "0.1.0"
edition = "2021"
publish = false

[dependencies]
xmltree = "=0.9.0"
