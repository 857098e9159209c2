[package]
name = "vortex"
version = "0.1.0"
edition = "2021"
publish = false

[dependencies]
fsst-rs = "=0.5.11"
smallvec = "=1.16.4"
num-traits = "=0.2.19"
object_store = "=0.13.2"
futures = "=0.3.34"
smol = "=2.0.2"
