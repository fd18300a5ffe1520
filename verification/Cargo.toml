[package]
name = "proc_mesh"
version = "0.1.0"
edition = "2021"
publish = false

[dependencies]
fast-surface-nets = "*"
