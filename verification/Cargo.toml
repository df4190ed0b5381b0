[package]
name = "fixed_str"
version = "0.1.0"
edition = "2021"
publish = false

[dependencies]
binrw = "*"
rkyv = "0.8"
serde = "1"
