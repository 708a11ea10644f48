[package]
name = "opw_robot"
version = "0.1.0"
edition = "2021"
publish = false

[dependencies]
rs-opw-kinematics = { version = "=1.8.20", default-features = false }
nalgebra = "=0.34.2"
polars = { version = "=0.55.2", default-features = false }
