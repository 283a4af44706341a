[package]
name = "rt_trace"
version = "0.1.0"
edition = "2021"
publish = false

[dependencies]
bytes = "1"
fastant = "0.1.11"
fastrace = "0.7"
once_cell = "1"
parking_lot = "0.12"
prost = "0.13"
thread-id = "*"
