[package]
name = "file_inventory"
version = "0.1.0"
edition = "2021"
publish = false

[dependencies]
anyhow = "*"
chrono = "*"
colored = "*"
csv = "*"
walkdir = "*"
