[package]
name = "summed_area_table"
version = "0.1.0"
edition = "2021"
publish = false

[dependencies]
nalgebra = "*"
