[package]
name = "futures_signals_ext"
version = "0.1.0"
edition = "2021"
publish = false

[dependencies]
futures-signals = "=0.3.34"
pin-project-lite = "=0.2.17"
artwrap = "=0.2.3"
