[package]
name = "asynchronix"
version = "0.1.0"
edition = "2021"
publish = false

[dependencies]
bytes = "1"
num_cpus = "1"
prost = "0.13"
prost-types = "0.13"
recycle-box = "0.2"
slab = "0.4"
tai-time = "0.3"
