[package]
name = "rosu_parser"
version = "0.1.0"
edition = "2021"
publish = false

[dependencies]
argh = "0.1"
glob = "0.3"
