[package]
name = "qevy"
version = "0.2.0"
edition = "2021"
publish = false

[dependencies]
shalrath = "=0.2.6"
shambler = "=0.2.0"
thiserror = "=1.0.69"
tracing = "=0.1.44"
deluxe = "*"
proc-macro2 = "1"
quote = "1"
syn = "2"
