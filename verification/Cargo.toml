[package]
name = "oxidizr_swap"
version = "0.1.0"
edition = "2021"
publish = false

[dependencies]
anyhow = "*"
sys-info = "*"
tracing = "*"
which = "*"
