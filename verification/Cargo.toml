[package]
name = "tapepy"
version = "0.1.0"
edition = "2021"
publish = false

[dependencies]
chrono = "*"
clap = { version = "4", features = ["derive"] }
graphviz-rust = "*"
open-hypergraphs = "*"
open-hypergraphs-dot = "*"
rustpython-parser = "0.3"
