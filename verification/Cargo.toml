[package]
name = "con_panes"
version = "0.1.0"
edition = "2021"
publish = false

[dependencies]
regex = "1"
