[package]
name = "sum_tree_chips"
version = "0.1.0"
edition = "2021"
publish = false

[dependencies]
halo2_gadgets = "*"
pasta_curves = "*"
ff = "*"
