[package]
name = "riichi"
version = "0.1.0"
edition = "2021"
publish = false

[dependencies]
riichi-decomp-table = "*"
once_cell = "1"
thiserror = "1"
