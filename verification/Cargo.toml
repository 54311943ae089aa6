[package]
name = "stgen_trace"
version = "0.1.0"
edition = "2021"
publish = false

[dependencies]
capnp = "=0.13.7"
flate2 = "=1.1.10"
