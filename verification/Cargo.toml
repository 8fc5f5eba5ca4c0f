[package]
name = "cpu_probe"
version = "0.1.0"
edition = "2021"
publish = false

[dependencies]
chrono = "*"
colored = "*"
term_cursor = "*"
term_size = "*"
