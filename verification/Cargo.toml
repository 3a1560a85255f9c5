[package]
name = "acbc"
version = "0.1.0"
edition = "2021"
publish = false

[dependencies]
byteorder = "=1.5.0"
fnv = "=1.0.7"
log = "=0.4.34"
thiserror = "=1.0.69"
tinyvec = "=1.13.3"
