[package]
name = "ray_tracer"
version = "0.1.0"
edition = "2021"
publish = false

[dependencies]
byteorder = "=1.5.0"
rustler = "=0.32.1"
