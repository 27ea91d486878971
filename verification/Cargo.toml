[package]
name = "fakexr"
version = "0.1.0"
edition = "2021"
publish = false

[dependencies]
openxr-sys = "0.11"
openxr = "0.19"
glam = "0.29"
