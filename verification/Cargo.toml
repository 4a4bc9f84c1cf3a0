[package]
name = "call_browser"
version = "0.1.0"
edition = "2021"
publish = false

[dependencies]
petgraph = "0.5"
termion = "1.5"
tui = "0.9"
failure = "0.1"
